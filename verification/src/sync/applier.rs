//! Applying a peer's changes.
//!
//! [`RemoteChangeApplier::apply_single`] decides what one change does to the store
//! it meets: the writes to perform and how the change is accounted for. Nothing it
//! writes reaches the local log, so a peer's change never echoes back.
//! [`RemoteChangeApplier::apply_batch`] accounts for a whole batch.

use vstd::prelude::*;
use std::collections::BTreeMap;

use crate::error::StorageError;
use crate::model::{
    Collective, DerivedInsight, Experience, ExperienceRelation, ExperienceUpdate,
};
use crate::storage::experiences::{
    delete_experience, merge_counters, save_experience, update_experience,
};
use crate::storage::records::{
    delete_insight, delete_relation, save_collective, save_insight, save_relation,
};
use crate::storage::store::{Plan, StoreOp, StoreView};
use crate::storage::wal::WalContext;
use crate::sync::config::{ConflictResolution, SyncConfig};
use crate::sync::error::SyncError;
use crate::sync::payload::EntityRef;
use crate::sync::types::{SyncChange, SyncPayload, SyncStats};
use crate::types::{ExperienceId, Timestamp};

verus! {

/// How one change ended.
#[derive(Clone, Copy, Debug, PartialEq, Eq, Structural)]
pub enum ApplyOutcome {
    /// It was applied.
    Applied,
    /// There was nothing to do.
    Skipped,
    /// A conflict was decided.
    ConflictResolved,
}

/// The local records a change meets.
#[derive(Debug)]
pub struct LocalRows {
    /// The experience it is about, or the source of the relation it creates.
    pub experience: Option<Experience>,
    /// The relation it is about.
    pub relation: Option<ExperienceRelation>,
    /// The insight it is about.
    pub insight: Option<DerivedInsight>,
    /// The collective it is about.
    pub collective: Option<Collective>,
}

/// The record a change is about.
pub open spec fn subject(payload: SyncPayload) -> EntityRef {
    match payload {
        SyncPayload::ExperienceCreated(e) => EntityRef::Experience(e.id),
        SyncPayload::ExperienceUpdated { id, .. } => EntityRef::Experience(id),
        SyncPayload::ExperienceArchived { id, .. } => EntityRef::Experience(id),
        SyncPayload::ExperienceDeleted { id, .. } => EntityRef::Experience(id),
        SyncPayload::RelationCreated(r) => EntityRef::Relation(r.id),
        SyncPayload::RelationDeleted { id, .. } => EntityRef::Relation(id),
        SyncPayload::InsightCreated(x) => EntityRef::Insight(x.id),
        SyncPayload::InsightDeleted { id, .. } => EntityRef::Insight(id),
        SyncPayload::CollectiveCreated(c) => EntityRef::Collective(c.id),
    }
}

/// The experience a change looks up: the one it is about, or the source of the
/// relation it creates.
pub open spec fn experience_met(payload: SyncPayload) -> Option<ExperienceId> {
    match payload {
        SyncPayload::RelationCreated(r) => Some(r.source_id),
        _ => match subject(payload) {
            EntityRef::Experience(id) => Some(id),
            _ => None,
        },
    }
}

/// The record a change is about.
pub fn row_needed(payload: &SyncPayload) -> (row: EntityRef)
    ensures
        row == subject(*payload),
{
    match payload {
        SyncPayload::ExperienceCreated(e) => EntityRef::Experience(e.id),
        SyncPayload::ExperienceUpdated { id, .. } => EntityRef::Experience(*id),
        SyncPayload::ExperienceArchived { id, .. } => EntityRef::Experience(*id),
        SyncPayload::ExperienceDeleted { id, .. } => EntityRef::Experience(*id),
        SyncPayload::RelationCreated(r) => EntityRef::Relation(r.id),
        SyncPayload::RelationDeleted { id, .. } => EntityRef::Relation(*id),
        SyncPayload::InsightCreated(x) => EntityRef::Insight(x.id),
        SyncPayload::InsightDeleted { id, .. } => EntityRef::Insight(*id),
        SyncPayload::CollectiveCreated(c) => EntityRef::Collective(c.id),
    }
}

/// The experience a change looks up.
pub fn experience_needed(payload: &SyncPayload) -> (id: Option<ExperienceId>)
    ensures
        id == experience_met(*payload),
{
    match payload {
        SyncPayload::RelationCreated(r) => Some(r.source_id),
        _ => match row_needed(payload) {
            EntityRef::Experience(id) => Some(id),
            _ => None,
        },
    }
}

/// Whether `rows` are the records of `s` that a change meets.
pub open spec fn rows_of(s: StoreView, payload: SyncPayload, rows: LocalRows) -> bool {
    &&& experience_met(payload) matches Some(id) ==> rows.experience == look_up(s.experiences, id)
    &&& subject(payload) matches EntityRef::Relation(id) ==> rows.relation == look_up(
        s.relations,
        id,
    )
    &&& subject(payload) matches EntityRef::Insight(id) ==> rows.insight == look_up(s.insights, id)
    &&& subject(payload) matches EntityRef::Collective(id) ==> rows.collective == look_up(
        s.collectives,
        id,
    )
}

/// The record under a key, if there is one.
pub open spec fn look_up<K, V>(table: Map<K, V>, key: K) -> Option<V> {
    if table.dom().contains(key) {
        Some(table[key])
    } else {
        None
    }
}

/// The store with the experience record under `id` replaced.
pub open spec fn with_record(s: StoreView, id: ExperienceId, e: Experience) -> StoreView {
    StoreView { experiences: s.experiences.insert(id, e), ..s }
}

/// The update that soft-deletes an experience.
pub open spec fn archiving() -> ExperienceUpdate {
    ExperienceUpdate { archived: Some(true), ..ExperienceUpdate::spec_empty() }
}

/// Whether a change carries counters to merge.
pub open spec fn carries_counters(update: crate::sync::types::SerializableExperienceUpdate) -> bool {
    update.applications is Some || update.last_reinforced is Some
}

/// The counters a change carries.
pub open spec fn carried_applications(
    update: crate::sync::types::SerializableExperienceUpdate,
) -> Map<u128, u32> {
    match update.applications {
        Some(m) => m@,
        None => Map::empty(),
    }
}

/// Whether `after` is the local experience with the counters that a change carries
/// merged in.
pub open spec fn is_merged(
    local: Experience,
    update: crate::sync::types::SerializableExperienceUpdate,
    after: Experience,
) -> bool {
    if carries_counters(update) {
        crate::storage::experiences::is_counter_merge(
            local,
            carried_applications(update),
            update.last_reinforced,
            after,
        )
    } else {
        after == local
    }
}

/// Whether the local experience is newer than a change and newer wins.
pub open spec fn local_wins(
    resolution: ConflictResolution,
    local: Experience,
    timestamp: Timestamp,
) -> bool {
    resolution == ConflictResolution::LastWriteWins && local.timestamp.millis > timestamp.millis
}

/// Whether a change cannot be applied for want of a record it depends on.
pub open spec fn lacks_dependency(payload: SyncPayload, rows: LocalRows) -> bool {
    match payload {
        SyncPayload::ExperienceUpdated { .. } => rows.experience is None,
        SyncPayload::RelationCreated(_) => rows.relation is None && rows.experience is None,
        _ => false,
    }
}

/// Whether a change that meets `rows` ends with `outcome` and turns the store into
/// what `plan` makes of it.
pub open spec fn is_application(
    payload: SyncPayload,
    rows: LocalRows,
    resolution: ConflictResolution,
    plan: Plan,
    outcome: ApplyOutcome,
) -> bool {
    match payload {
        SyncPayload::ExperienceCreated(e) => outcome == ApplyOutcome::Applied && (
        match rows.experience {
            Some(local) => exists|after: Experience|
                #[trigger] crate::storage::experiences::is_counter_merge(
                    local,
                    e.applications@,
                    Some(e.last_reinforced),
                    after,
                ) && forall|s: StoreView| #[trigger] plan.effect(s) == with_record(s, e.id, after),
            None => forall|s: StoreView| #[trigger]
                plan.effect(s) == crate::storage::experiences::with_experience(s, e),
        }),
        SyncPayload::ExperienceUpdated { id, update, timestamp } => (
        rows.experience matches Some(local) && exists|after: Experience|
            #[trigger] is_merged(local, update, after) && if local_wins(
                resolution,
                local,
                timestamp,
            ) {
                if carries_counters(update) {
                    outcome == ApplyOutcome::ConflictResolved && forall|s: StoreView| #[trigger]
                        plan.effect(s) == with_record(s, id, after)
                } else {
                    outcome == ApplyOutcome::Skipped && forall|s: StoreView| #[trigger]
                        plan.effect(s) == s
                }
            } else {
                outcome == (if resolution == ConflictResolution::LastWriteWins {
                    ApplyOutcome::ConflictResolved
                } else {
                    ApplyOutcome::Applied
                }) && forall|s: StoreView| #[trigger]
                    plan.effect(s) == with_record(
                        s,
                        id,
                        crate::storage::experiences::updated(after, update.scalars()),
                    )
            }),
        SyncPayload::ExperienceArchived { id, .. } => match rows.experience {
            None => outcome == ApplyOutcome::Skipped && forall|s: StoreView| #[trigger]
                plan.effect(s) == s,
            Some(local) => outcome == ApplyOutcome::Applied && forall|s: StoreView| #[trigger]
                plan.effect(s) == with_record(
                    s,
                    id,
                    crate::storage::experiences::updated(local, archiving()),
                ),
        },
        SyncPayload::ExperienceDeleted { id, .. } => match rows.experience {
            None => outcome == ApplyOutcome::Skipped && forall|s: StoreView| #[trigger]
                plan.effect(s) == s,
            Some(local) => outcome == ApplyOutcome::Applied && forall|s: StoreView| #[trigger]
                plan.effect(s) == crate::storage::experiences::without_experience(s, id, local),
        },
        SyncPayload::RelationCreated(r) => match rows.relation {
            Some(_) => outcome == ApplyOutcome::Skipped && forall|s: StoreView| #[trigger]
                plan.effect(s) == s,
            None => outcome == ApplyOutcome::Applied && forall|s: StoreView| #[trigger]
                plan.effect(s) == crate::storage::records::with_relation(s, r),
        },
        SyncPayload::RelationDeleted { id, .. } => match rows.relation {
            None => outcome == ApplyOutcome::Skipped && forall|s: StoreView| #[trigger]
                plan.effect(s) == s,
            Some(r) => outcome == ApplyOutcome::Applied && forall|s: StoreView| #[trigger]
                plan.effect(s) == crate::storage::records::without_relation(s, id, r),
        },
        SyncPayload::InsightCreated(x) => match rows.insight {
            Some(_) => outcome == ApplyOutcome::Skipped && forall|s: StoreView| #[trigger]
                plan.effect(s) == s,
            None => outcome == ApplyOutcome::Applied && forall|s: StoreView| #[trigger]
                plan.effect(s) == crate::storage::records::with_insight(s, x),
        },
        SyncPayload::InsightDeleted { id, .. } => match rows.insight {
            None => outcome == ApplyOutcome::Skipped && forall|s: StoreView| #[trigger]
                plan.effect(s) == s,
            Some(x) => outcome == ApplyOutcome::Applied && forall|s: StoreView| #[trigger]
                plan.effect(s) == crate::storage::records::without_insight(s, id, x),
        },
        SyncPayload::CollectiveCreated(c) => match rows.collective {
            Some(_) => outcome == ApplyOutcome::Skipped && forall|s: StoreView| #[trigger]
                plan.effect(s) == s,
            None => outcome == ApplyOutcome::Applied && forall|s: StoreView| #[trigger]
                plan.effect(s) == (StoreView { collectives: s.collectives.insert(c.id, c), ..s }),
        },
    }
}

/// What a failed write of a peer's change is reported as.
fn apply_fault(text: &str) -> (e: SyncError)
    ensures
        e matches SyncError::Transport(m) && m@ == "Failed to apply sync change: "@ + text@,
{
    SyncError::Transport(crate::text::join("Failed to apply sync change: ", text))
}

/// What a failed write of a peer's change is reported as.
fn storage_fault(e: StorageError) -> (fault: SyncError)
    ensures
        e matches StorageError::Corrupted(t) ==> (fault matches SyncError::Transport(m) && m@
            == "Failed to apply sync change: "@ + t@),
{
    match e {
        StorageError::Corrupted(text) => apply_fault(text.as_str()),
        _ => apply_fault("storage failure"),
    }
}

/// What is written and reported for a change that does nothing.
fn skipped() -> (r: (Plan, ApplyOutcome))
    ensures
        r.1 == ApplyOutcome::Skipped,
        forall|s: StoreView| #[trigger] r.0.effect(s) == s,
{
    (Plan::new(), ApplyOutcome::Skipped)
}

/// Applies the changes of peers to one store.
#[derive(Debug)]
pub struct RemoteChangeApplier {
    /// Settings.
    pub config: SyncConfig,
}

impl RemoteChangeApplier {
    /// An applier with the given settings.
    pub fn new(config: SyncConfig) -> (applier: Self)
        ensures
            applier == (RemoteChangeApplier { config }),
    {
        RemoteChangeApplier { config }
    }

    /// Decides what one change of a peer does. `rows` are the local records it meets,
    /// or why they could not be read.
    ///
    /// A creation of what is there already is skipped, except that an experience's
    /// counters are merged. A deletion or archiving of what is gone is skipped. A
    /// change of an experience that is absent fails: acknowledging it would let the
    /// sender forget the creation it depends on.
    pub fn apply_single(
        &self,
        change: SyncChange,
        rows: Result<LocalRows, String>,
    ) -> (r: Result<(Plan, ApplyOutcome), SyncError>)
        ensures
            r is Err <==> (rows is Err || lacks_dependency(change.payload, rows->Ok_0)),
            r matches Ok(done) ==> (rows matches Ok(met) && is_application(
                change.payload,
                met,
                self.config.conflict_resolution,
                done.0,
                done.1,
            )),
            rows matches Err(t) ==> (r matches Err(SyncError::Transport(m)) && m@
                == "Failed to apply sync change: "@ + t@),
            rows is Ok ==> (r matches Err(e) ==> match change.payload {
                SyncPayload::ExperienceUpdated { id, .. } => e matches SyncError::MissingDependency {
                    entity,
                    id: text,
                } && entity@ == "experience"@ && text@ == crate::types::uuid_chars(id.value as nat),
                _ => e matches SyncError::Transport(m) && m@
                    == "Failed to apply sync change: "@
                    + "relation source experience not found for WAL record"@,
            }),
    {
        let met = match rows {
            Ok(met) => met,
            Err(text) => {
                return Err(apply_fault(text.as_str()));
            },
        };
        let wal = WalContext { applying: true, stored: None };
        match change.payload {
            SyncPayload::ExperienceCreated(e) => {
                match met.experience {
                    Some(local) => {
                        let after = merge_counters(local, &e.applications, Some(e.last_reinforced));
                        let mut plan = Plan::new();
                        plan.push(StoreOp::PutExperience(e.id, after));
                        Ok((plan, ApplyOutcome::Applied))
                    },
                    None => match save_experience(e, &wal) {
                        Ok(plan) => Ok((plan, ApplyOutcome::Applied)),
                        Err(e) => Err(storage_fault(e)),
                    },
                }
            },
            SyncPayload::ExperienceUpdated { id, update, timestamp } => {
                let local = match met.experience {
                    Some(local) => local,
                    None => {
                        return Err(SyncError::missing_experience(id.to_string().as_str()));
                    },
                };
                let newer_wins = match self.config.conflict_resolution {
                    ConflictResolution::LastWriteWins => true,
                    ConflictResolution::ServerWins => false,
                };
                let keep_local = newer_wins && local.timestamp.millis > timestamp.millis;
                let counters = update.applications.is_some() || update.last_reinforced.is_some();
                let ghost before = local;
                let after = if counters {
                    match &update.applications {
                        Some(applications) => merge_counters(
                            local,
                            applications,
                            update.last_reinforced,
                        ),
                        None => {
                            let none: BTreeMap<u128, u32> = BTreeMap::new();
                            merge_counters(local, &none, update.last_reinforced)
                        },
                    }
                } else {
                    local
                };
                assert(is_merged(before, update, after));
                if keep_local {
                    if counters {
                        let mut plan = Plan::new();
                        plan.push(StoreOp::PutExperience(id, after));
                        return Ok((plan, ApplyOutcome::ConflictResolved));
                    }
                    return Ok(skipped());
                }
                let outcome = if newer_wins {
                    ApplyOutcome::ConflictResolved
                } else {
                    ApplyOutcome::Applied
                };
                match update_experience(id, Some(after), update.into_update(), &wal) {
                    Ok(Some(plan)) => Ok((plan, outcome)),
                    Ok(None) => Ok(skipped()),
                    Err(e) => Err(storage_fault(e)),
                }
            },
            SyncPayload::ExperienceArchived { id, .. } => {
                let mut update = ExperienceUpdate::default();
                update.archived = Some(true);
                match update_experience(id, met.experience, update, &wal) {
                    Ok(Some(plan)) => Ok((plan, ApplyOutcome::Applied)),
                    Ok(None) => Ok(skipped()),
                    Err(e) => Err(storage_fault(e)),
                }
            },
            SyncPayload::ExperienceDeleted { id, .. } => {
                match delete_experience(id, &met.experience, &wal) {
                    Ok(Some(plan)) => Ok((plan, ApplyOutcome::Applied)),
                    Ok(None) => Ok(skipped()),
                    Err(e) => Err(storage_fault(e)),
                }
            },
            SyncPayload::RelationCreated(relation) => {
                if met.relation.is_some() {
                    return Ok(skipped());
                }
                match save_relation(relation, &met.experience, &wal) {
                    Ok(plan) => Ok((plan, ApplyOutcome::Applied)),
                    Err(e) => Err(storage_fault(e)),
                }
            },
            SyncPayload::RelationDeleted { id, timestamp } => {
                match delete_relation(id, &met.relation, &met.experience, timestamp, &wal) {
                    Ok(Some(plan)) => Ok((plan, ApplyOutcome::Applied)),
                    Ok(None) => Ok(skipped()),
                    Err(e) => Err(storage_fault(e)),
                }
            },
            SyncPayload::InsightCreated(insight) => {
                if met.insight.is_some() {
                    return Ok(skipped());
                }
                match save_insight(insight, &wal) {
                    Ok(plan) => Ok((plan, ApplyOutcome::Applied)),
                    Err(e) => Err(storage_fault(e)),
                }
            },
            SyncPayload::InsightDeleted { id, timestamp } => {
                match delete_insight(id, &met.insight, timestamp, &wal) {
                    Ok(Some(plan)) => Ok((plan, ApplyOutcome::Applied)),
                    Ok(None) => Ok(skipped()),
                    Err(e) => Err(storage_fault(e)),
                }
            },
            SyncPayload::CollectiveCreated(collective) => {
                if met.collective.is_some() {
                    return Ok(skipped());
                }
                match save_collective(collective, &wal) {
                    Ok(plan) => Ok((plan, ApplyOutcome::Applied)),
                    Err(e) => Err(storage_fault(e)),
                }
            },
        }
    }
}

/// Applying a peer's change records nothing in the local log, so it never echoes.
pub proof fn law_applying_never_echoes(
    payload: SyncPayload,
    rows: LocalRows,
    resolution: ConflictResolution,
    plan: Plan,
    outcome: ApplyOutcome,
    s: StoreView,
)
    requires
        is_application(payload, rows, resolution, plan, outcome),
    ensures
        plan.effect(s).events == s.events,
        plan.effect(s).wal_sequence == s.wal_sequence,
{
}

/// A change other than the recording or changing of an experience is applied at
/// most once: met again, it is skipped and writes nothing.
pub proof fn law_second_application_is_skipped(
    payload: SyncPayload,
    resolution: ConflictResolution,
    s: StoreView,
    rows: LocalRows,
    plan: Plan,
    outcome: ApplyOutcome,
    rows_again: LocalRows,
    plan_again: Plan,
    outcome_again: ApplyOutcome,
)
    requires
        payload is ExperienceDeleted || payload is RelationCreated || payload is RelationDeleted
            || payload is InsightCreated || payload is InsightDeleted
            || payload is CollectiveCreated,
        rows_of(s, payload, rows),
        is_application(payload, rows, resolution, plan, outcome),
        rows_of(plan.effect(s), payload, rows_again),
        is_application(payload, rows_again, resolution, plan_again, outcome_again),
    ensures
        outcome_again == ApplyOutcome::Skipped,
        plan_again.effect(plan.effect(s)) == plan.effect(s),
{
}

/// The counters of the experience under `id`.
pub open spec fn counters_at(s: StoreView, id: ExperienceId) -> Map<u128, u32> {
    s.experiences[id].applications@
}

/// Meeting the recording of an experience again changes no counter and no
/// reinforcement time.
pub proof fn law_second_creation_changes_nothing(
    e: Experience,
    resolution: ConflictResolution,
    s: StoreView,
    rows: LocalRows,
    plan: Plan,
    outcome: ApplyOutcome,
    rows_again: LocalRows,
    plan_again: Plan,
    outcome_again: ApplyOutcome,
)
    requires
        rows_of(s, SyncPayload::ExperienceCreated(e), rows),
        is_application(SyncPayload::ExperienceCreated(e), rows, resolution, plan, outcome),
        rows_of(plan.effect(s), SyncPayload::ExperienceCreated(e), rows_again),
        is_application(
            SyncPayload::ExperienceCreated(e),
            rows_again,
            resolution,
            plan_again,
            outcome_again,
        ),
    ensures
        ({
            let once = plan.effect(s);
            let twice = plan_again.effect(once);
            &&& counters_at(twice, e.id) == counters_at(once, e.id)
            &&& twice.experiences[e.id].last_reinforced == once.experiences[e.id].last_reinforced
            &&& twice == with_record(once, e.id, twice.experiences[e.id])
        }),
{
    let once = plan.effect(s);
    let twice = plan_again.effect(once);
    match rows.experience {
        Some(local) => {
            crate::gcounter::law_merge_idempotent(local.applications@, e.applications@);
        },
        None => {
            crate::gcounter::law_merge_idempotent(e.applications@, e.applications@);
        },
    }
    assert(counters_at(twice, e.id) =~= counters_at(once, e.id));
}

/// A change that loses a conflict still has its counters merged: no reinforcement
/// is ever lost to last-write-wins, and the local fields stay.
pub proof fn law_lost_conflict_keeps_counters(
    id: ExperienceId,
    update: crate::sync::types::SerializableExperienceUpdate,
    timestamp: Timestamp,
    s: StoreView,
    rows: LocalRows,
    plan: Plan,
    outcome: ApplyOutcome,
    k: u128,
)
    requires
        rows_of(s, SyncPayload::ExperienceUpdated { id, update, timestamp }, rows),
        is_application(
            SyncPayload::ExperienceUpdated { id, update, timestamp },
            rows,
            ConflictResolution::LastWriteWins,
            plan,
            outcome,
        ),
        s.experiences[id].timestamp.millis > timestamp.millis,
    ensures
        ({
            let after = plan.effect(s).experiences[id];
            &&& crate::gcounter::bucket(after.applications@, k) >= crate::gcounter::bucket(
                carried_applications(update),
                k,
            )
            &&& crate::gcounter::bucket(after.applications@, k) >= crate::gcounter::bucket(
                s.experiences[id].applications@,
                k,
            )
            &&& after.importance == s.experiences[id].importance
            &&& after.domain == s.experiences[id].domain
            &&& after.archived == s.experiences[id].archived
        }),
{
    let local = rows.experience.unwrap();
    assert(local == s.experiences[id]);
    let after = plan.effect(s).experiences[id];
    let m = choose|m: Experience|
        #[trigger] is_merged(local, update, m) && (if carries_counters(update) {
            forall|t: StoreView| #[trigger] plan.effect(t) == with_record(t, id, m)
        } else {
            forall|t: StoreView| #[trigger] plan.effect(t) == t
        });
    assert(plan.effect(s) == if carries_counters(update) {
        with_record(s, id, m)
    } else {
        s
    });
}

// ---------------------------------------------------------------------------
// Accounting for a batch
// ---------------------------------------------------------------------------

/// How one change of a batch ended.
#[derive(Clone, Copy, Debug, PartialEq, Eq, Structural)]
pub struct ChangeOutcome {
    /// Its sequence in the peer's log.
    pub sequence: u64,
    /// The reinforcement time it carried.
    pub last_reinforced: Option<Timestamp>,
    /// How it ended, or nothing where it failed.
    pub outcome: Option<ApplyOutcome>,
}

/// What became of a batch.
#[derive(Clone, Debug)]
pub struct ApplyResult {
    /// Changes that were applied.
    pub applied: usize,
    /// Changes that were not, failed ones among them.
    pub skipped: usize,
    /// Changes that decided a conflict.
    pub conflicts: usize,
    /// Changes that failed.
    pub failed: usize,
    /// Their sequences, in batch order.
    pub failed_sequences: Vec<u64>,
    /// The highest sequence at or below which every change succeeded.
    pub safe_through: Option<u64>,
    /// Reinforcements dated further into the future than the allowance.
    pub skewed_timestamps: usize,
}

/// The reinforcement time a change carries.
pub open spec fn reinforced_at(payload: SyncPayload) -> Option<Timestamp> {
    match payload {
        SyncPayload::ExperienceCreated(e) => Some(e.last_reinforced),
        SyncPayload::ExperienceUpdated { update, .. } => update.last_reinforced,
        _ => None,
    }
}

/// The reinforcement time a change carries.
pub fn reinforcement_time(payload: &SyncPayload) -> (t: Option<Timestamp>)
    ensures
        t == reinforced_at(*payload),
{
    match payload {
        SyncPayload::ExperienceCreated(e) => Some(e.last_reinforced),
        SyncPayload::ExperienceUpdated { update, .. } => update.last_reinforced,
        _ => None,
    }
}

/// Whether a reinforcement is dated further into the future than the allowance.
pub open spec fn skewed(t: Option<Timestamp>, now: Timestamp, allowance_ms: u64) -> bool {
    t matches Some(x) && x.millis > now.millis + allowance_ms
}

/// Whether a reinforcement is dated further into the future than the allowance.
pub fn is_skewed(t: Option<Timestamp>, now: Timestamp, allowance_ms: u64) -> (yes: bool)
    ensures
        yes == skewed(t, now, allowance_ms),
{
    match t {
        Some(x) => (x.millis as i128) > (now.millis as i128) + (allowance_ms as i128),
        None => false,
    }
}

/// How many of `outcomes` satisfy `p`.
pub open spec fn count(outcomes: Seq<ChangeOutcome>, p: spec_fn(ChangeOutcome) -> bool) -> nat
    decreases outcomes.len(),
{
    if outcomes.len() == 0 {
        0
    } else {
        count(outcomes.drop_last(), p) + if p(outcomes.last()) {
            1nat
        } else {
            0nat
        }
    }
}

/// Sequences of the failed changes, in order.
pub open spec fn failures(outcomes: Seq<ChangeOutcome>) -> Seq<u64>
    decreases outcomes.len(),
{
    if outcomes.len() == 0 {
        Seq::empty()
    } else {
        let before = failures(outcomes.drop_last());
        if outcomes.last().outcome is None {
            before.push(outcomes.last().sequence)
        } else {
            before
        }
    }
}

/// Whether everything at or below `position` succeeded.
pub open spec fn clear_through(outcomes: Seq<ChangeOutcome>, position: u64) -> bool {
    forall|i: int|
        #![trigger outcomes[i]]
        0 <= i < outcomes.len() && outcomes[i].sequence <= position ==> outcomes[i].outcome is Some
}

/// Whether `safe` is the highest sequence of the batch at or below which
/// everything succeeded.
pub open spec fn is_safe_through(outcomes: Seq<ChangeOutcome>, safe: Option<u64>) -> bool {
    match safe {
        Some(position) => {
            &&& exists|i: int|
                #![trigger outcomes[i]]
                0 <= i < outcomes.len() && outcomes[i].sequence == position
            &&& clear_through(outcomes, position)
            &&& forall|i: int|
                #![trigger outcomes[i]]
                0 <= i < outcomes.len() && clear_through(outcomes, outcomes[i].sequence)
                    ==> outcomes[i].sequence <= position
        },
        None => forall|i: int|
            #![trigger outcomes[i]]
            0 <= i < outcomes.len() ==> !clear_through(outcomes, outcomes[i].sequence),
    }
}

/// The lowest failed sequence, if any change failed.
fn lowest_failure(outcomes: &Vec<ChangeOutcome>) -> (low: Option<u64>)
    ensures
        low is None <==> forall|i: int|
            #![trigger outcomes@[i]]
            0 <= i < outcomes@.len() ==> outcomes@[i].outcome is Some,
        low matches Some(f) ==> {
            &&& exists|i: int|
                #![trigger outcomes@[i]]
                0 <= i < outcomes@.len() && outcomes@[i].outcome is None && outcomes@[i].sequence
                    == f
            &&& forall|i: int|
                #![trigger outcomes@[i]]
                0 <= i < outcomes@.len() && outcomes@[i].outcome is None ==> f
                    <= outcomes@[i].sequence
        },
{
    let mut low: Option<u64> = None;
    let mut i: usize = 0;
    while i < outcomes.len()
        invariant
            i <= outcomes@.len(),
            low is None <==> forall|j: int|
                #![trigger outcomes@[j]]
                0 <= j < i ==> outcomes@[j].outcome is Some,
            low matches Some(f) ==> {
                &&& exists|j: int|
                    #![trigger outcomes@[j]]
                    0 <= j < i && outcomes@[j].outcome is None && outcomes@[j].sequence == f
                &&& forall|j: int|
                    #![trigger outcomes@[j]]
                    0 <= j < i && outcomes@[j].outcome is None ==> f <= outcomes@[j].sequence
            },
        decreases outcomes@.len() - i,
    {
        let o = outcomes[i];
        if o.outcome.is_none() {
            assert(outcomes@[i as int].outcome is None);
            match low {
                None => {
                    low = Some(o.sequence);
                },
                Some(f) => {
                    if o.sequence < f {
                        low = Some(o.sequence);
                    }
                },
            }
        }
        i = i + 1;
    }
    low
}

/// The highest sequence at or below which every change succeeded. The bound is by
/// sequence, not by place in the batch.
pub fn safe_position(outcomes: &Vec<ChangeOutcome>) -> (safe: Option<u64>)
    ensures
        is_safe_through(outcomes@, safe),
{
    let low = lowest_failure(outcomes);
    let mut safe: Option<u64> = None;
    let mut i: usize = 0;
    proof {
        assert forall|p: u64| clear_through(outcomes@, p) <==> (low matches Some(f) ==> p < f) by {
            if let Some(f) = low {
                let w = choose|w: int|
                    #![trigger outcomes@[w]]
                    0 <= w < outcomes@.len() && outcomes@[w].outcome is None
                        && outcomes@[w].sequence == f;
                if clear_through(outcomes@, p) && f <= p {
                    assert(outcomes@[w].outcome is Some);
                }
            }
        }
    }
    while i < outcomes.len()
        invariant
            i <= outcomes@.len(),
            forall|p: u64|
                clear_through(outcomes@, p) <==> (low matches Some(f) ==> p < f),
            match safe {
                Some(position) => {
                    &&& exists|j: int|
                        #![trigger outcomes@[j]]
                        0 <= j < i && outcomes@[j].sequence == position
                    &&& clear_through(outcomes@, position)
                    &&& forall|j: int|
                        #![trigger outcomes@[j]]
                        0 <= j < i && clear_through(outcomes@, outcomes@[j].sequence)
                            ==> outcomes@[j].sequence <= position
                },
                None => forall|j: int|
                    #![trigger outcomes@[j]]
                    0 <= j < i ==> !clear_through(outcomes@, outcomes@[j].sequence),
            },
        decreases outcomes@.len() - i,
    {
        let sequence: u64 = outcomes[i].sequence;
        assert(outcomes@[i as int].sequence == sequence);
        let clear = match low {
            None => true,
            Some(f) => sequence < f,
        };
        assert(clear == clear_through(outcomes@, sequence));
        if clear {
            match safe {
                None => {
                    safe = Some(sequence);
                },
                Some(position) => {
                    if sequence > position {
                        safe = Some(sequence);
                    }
                },
            }
        }
        i = i + 1;
    }
    safe
}

impl RemoteChangeApplier {
    /// Accounts for a batch whose changes ended as `outcomes` at `now`.
    pub fn apply_batch(&self, outcomes: &Vec<ChangeOutcome>, now: Timestamp) -> (result: ApplyResult)
        ensures
            result.applied as nat == count(
                outcomes@,
                |o: ChangeOutcome|
                    o.outcome == Some(ApplyOutcome::Applied) || o.outcome == Some(
                        ApplyOutcome::ConflictResolved,
                    ),
            ),
            result.skipped as nat == count(
                outcomes@,
                |o: ChangeOutcome| o.outcome is None || o.outcome == Some(ApplyOutcome::Skipped),
            ),
            result.conflicts as nat == count(
                outcomes@,
                |o: ChangeOutcome| o.outcome == Some(ApplyOutcome::ConflictResolved),
            ),
            result.failed as nat == failures(outcomes@).len(),
            result.failed_sequences@ == failures(outcomes@),
            is_safe_through(outcomes@, result.safe_through),
            result.skewed_timestamps as nat == count(
                outcomes@,
                |o: ChangeOutcome| skewed(o.last_reinforced, now, self.config.max_clock_skew_ms),
            ),
            result.applied + result.skipped == outcomes@.len(),
            result.failed <= result.skipped,
    {
        let ghost is_applied = |o: ChangeOutcome|
            o.outcome == Some(ApplyOutcome::Applied) || o.outcome == Some(
                ApplyOutcome::ConflictResolved,
            );
        let ghost is_skipped = |o: ChangeOutcome|
            o.outcome is None || o.outcome == Some(ApplyOutcome::Skipped);
        let ghost is_conflict = |o: ChangeOutcome| o.outcome == Some(ApplyOutcome::ConflictResolved);
        let ghost is_late = |o: ChangeOutcome|
            skewed(o.last_reinforced, now, self.config.max_clock_skew_ms);
        let mut applied: usize = 0;
        let mut skipped: usize = 0;
        let mut conflicts: usize = 0;
        let mut late: usize = 0;
        let mut failed_sequences: Vec<u64> = Vec::new();
        let mut i: usize = 0;
        proof {
            assert(outcomes@.take(0) =~= Seq::empty());
        }
        while i < outcomes.len()
            invariant
                i <= outcomes@.len(),
                applied as nat == count(outcomes@.take(i as int), is_applied),
                skipped as nat == count(outcomes@.take(i as int), is_skipped),
                conflicts as nat == count(outcomes@.take(i as int), is_conflict),
                late as nat == count(outcomes@.take(i as int), is_late),
                failed_sequences@ == failures(outcomes@.take(i as int)),
                applied + skipped == i,
                conflicts <= i,
                late <= i,
                failed_sequences@.len() <= skipped,
                is_applied == (|o: ChangeOutcome|
                    o.outcome == Some(ApplyOutcome::Applied) || o.outcome == Some(
                        ApplyOutcome::ConflictResolved,
                    )),
                is_skipped == (|o: ChangeOutcome|
                    o.outcome is None || o.outcome == Some(ApplyOutcome::Skipped)),
                is_conflict == (|o: ChangeOutcome|
                    o.outcome == Some(ApplyOutcome::ConflictResolved)),
                is_late == (|o: ChangeOutcome|
                    skewed(o.last_reinforced, now, self.config.max_clock_skew_ms)),
            decreases outcomes@.len() - i,
        {
            let o = outcomes[i];
            proof {
                assert(outcomes@.take(i + 1).drop_last() =~= outcomes@.take(i as int));
                assert(outcomes@.take(i + 1).last() == o);
            }
            match o.outcome {
                Some(ApplyOutcome::Applied) => {
                    applied = applied + 1;
                },
                Some(ApplyOutcome::Skipped) => {
                    skipped = skipped + 1;
                },
                Some(ApplyOutcome::ConflictResolved) => {
                    applied = applied + 1;
                    conflicts = conflicts + 1;
                },
                None => {
                    skipped = skipped + 1;
                    failed_sequences.push(o.sequence);
                },
            }
            if is_skewed(o.last_reinforced, now, self.config.max_clock_skew_ms) {
                late = late + 1;
            }
            i = i + 1;
        }
        proof {
            assert(outcomes@.take(i as int) =~= outcomes@);
        }
        let failed: usize = failed_sequences.len();
        ApplyResult {
            applied,
            skipped,
            conflicts,
            failed,
            failed_sequences,
            safe_through: safe_position(outcomes),
            skewed_timestamps: late,
        }
    }
}

impl ApplyResult {
    /// Adds the batch to the local counters, saturating.
    pub fn record_into(&self, stats: &mut SyncStats)
        ensures
            final(stats).skewed_timestamps as nat == if old(stats).skewed_timestamps
                + self.skewed_timestamps > u64::MAX {
                u64::MAX as nat
            } else {
                (old(stats).skewed_timestamps + self.skewed_timestamps) as nat
            },
    {
        stats.skewed_timestamps = stats.skewed_timestamps.saturating_add(
            self.skewed_timestamps as u64,
        );
    }
}

proof fn lemma_failures(outcomes: Seq<ChangeOutcome>, f: u64)
    ensures
        failures(outcomes).contains(f) <==> exists|i: int|
            #![trigger outcomes[i]]
            0 <= i < outcomes.len() && outcomes[i].outcome is None && outcomes[i].sequence == f,
    decreases outcomes.len(),
{
    if outcomes.len() > 0 {
        let before = outcomes.drop_last();
        lemma_failures(before, f);
        let n = outcomes.len() - 1;
        if failures(outcomes).contains(f) {
            let j = choose|j: int| 0 <= j < failures(outcomes).len() && failures(outcomes)[j] == f;
            if j < failures(before).len() {
                assert(failures(before)[j] == f);
                let i = choose|i: int|
                    #![trigger before[i]]
                    0 <= i < before.len() && before[i].outcome is None && before[i].sequence == f;
                assert(outcomes[i] == before[i]);
            } else {
                assert(outcomes[n].outcome is None && outcomes[n].sequence == f);
            }
        }
        if exists|i: int|
            #![trigger outcomes[i]]
            0 <= i < outcomes.len() && outcomes[i].outcome is None && outcomes[i].sequence == f {
            let i = choose|i: int|
                #![trigger outcomes[i]]
                0 <= i < outcomes.len() && outcomes[i].outcome is None && outcomes[i].sequence
                    == f;
            if i < n {
                assert(before[i] == outcomes[i]);
                let j = choose|j: int|
                    0 <= j < failures(before).len() && failures(before)[j] == f;
                assert(failures(outcomes)[j] == f);
            } else {
                assert(failures(outcomes).last() == f);
            }
        }
    }
}

/// An acknowledged position lies below every failure, so a cursor that takes it
/// never passes a change that was not applied.
pub proof fn law_safe_position_is_below_failures(
    outcomes: Seq<ChangeOutcome>,
    safe: Option<u64>,
    f: u64,
)
    requires
        is_safe_through(outcomes, safe),
        failures(outcomes).contains(f),
    ensures
        safe matches Some(position) ==> position < f,
{
    lemma_failures(outcomes, f);
    let i = choose|i: int|
        #![trigger outcomes[i]]
        0 <= i < outcomes.len() && outcomes[i].outcome is None && outcomes[i].sequence == f;
    if let Some(position) = safe {
        if f <= position {
            assert(outcomes[i].outcome is Some);
        }
    }
}

/// The pull cursor after a batch never passes a change of it that failed.
pub proof fn law_failed_change_stays_ahead(
    outcomes: Seq<ChangeOutcome>,
    safe: Option<u64>,
    prior: u64,
    scanned: u64,
    f: u64,
)
    requires
        is_safe_through(outcomes, safe),
        failures(outcomes).contains(f),
        prior < f,
    ensures
        crate::sync::progress::progress(prior, scanned, failures(outcomes).len(), safe) < f,
{
    law_safe_position_is_below_failures(outcomes, safe, f);
    let i = choose|i: int| 0 <= i < failures(outcomes).len() && failures(outcomes)[i] == f;
    crate::sync::progress::law_cursor_stays_below_failures(
        prior,
        scanned,
        failures(outcomes),
        safe,
        i,
    );
}

} // verus!
