//! What a log event tells a peer.

use vstd::prelude::*;

use crate::model::{Collective, DerivedInsight, Experience, ExperienceRelation};
use crate::storage::schema::{EntityTypeTag, WatchEventRecord, WatchEventTypeTag};
use crate::sync::error::SyncError;
use crate::sync::types::{SerializableExperienceUpdate, SyncChange, SyncEntityType, SyncPayload};
use crate::types::{CollectiveId, ExperienceId, InsightId, InstanceId, RelationId, Timestamp};

verus! {

/// A record to be looked up.
#[derive(Clone, Copy, Debug, PartialEq, Eq, Structural)]
pub enum EntityRef {
    /// An experience.
    Experience(ExperienceId),
    /// A relation.
    Relation(RelationId),
    /// An insight.
    Insight(InsightId),
    /// A collective.
    Collective(CollectiveId),
}

/// A record that was found.
#[derive(Clone, Debug)]
pub enum Entity {
    /// An experience.
    Experience(Experience),
    /// A relation.
    Relation(ExperienceRelation),
    /// An insight.
    Insight(DerivedInsight),
    /// A collective.
    Collective(Collective),
}

/// The number sixteen identifier bytes stand for.
pub open spec fn id_value(bytes: [u8; 16]) -> u128 {
    crate::bytes::be_value(bytes@) as u128
}

/// The record an event's payload is built from: creations, and changes of an
/// experience, carry the record as it is now; everything else carries none.
pub open spec fn needed(record: WatchEventRecord) -> Option<EntityRef> {
    let id = id_value(record.entity_id);
    match (record.entity_type, record.event_type) {
        (EntityTypeTag::Experience, WatchEventTypeTag::Created) => Some(
            EntityRef::Experience(ExperienceId { value: id }),
        ),
        (EntityTypeTag::Experience, WatchEventTypeTag::Updated) => Some(
            EntityRef::Experience(ExperienceId { value: id }),
        ),
        (EntityTypeTag::Relation, WatchEventTypeTag::Created) => Some(
            EntityRef::Relation(RelationId { value: id }),
        ),
        (EntityTypeTag::Insight, WatchEventTypeTag::Created) => Some(
            EntityRef::Insight(InsightId { value: id }),
        ),
        (EntityTypeTag::Collective, WatchEventTypeTag::Created) => Some(
            EntityRef::Collective(CollectiveId { value: id }),
        ),
        _ => None,
    }
}

/// The record an event's payload is built from.
pub fn entity_needed(record: &WatchEventRecord) -> (entity: Option<EntityRef>)
    ensures
        entity == needed(*record),
{
    match (record.entity_type, record.event_type) {
        (EntityTypeTag::Experience, WatchEventTypeTag::Created) => Some(
            EntityRef::Experience(ExperienceId::from_bytes(record.entity_id)),
        ),
        (EntityTypeTag::Experience, WatchEventTypeTag::Updated) => Some(
            EntityRef::Experience(ExperienceId::from_bytes(record.entity_id)),
        ),
        (EntityTypeTag::Relation, WatchEventTypeTag::Created) => Some(
            EntityRef::Relation(RelationId::from_bytes(record.entity_id)),
        ),
        (EntityTypeTag::Insight, WatchEventTypeTag::Created) => Some(
            EntityRef::Insight(InsightId::from_bytes(record.entity_id)),
        ),
        (EntityTypeTag::Collective, WatchEventTypeTag::Created) => Some(
            EntityRef::Collective(CollectiveId::from_bytes(record.entity_id)),
        ),
        _ => None,
    }
}

/// All mutable fields of an experience, as an update.
pub open spec fn full_update(e: Experience) -> SerializableExperienceUpdate {
    SerializableExperienceUpdate {
        importance: Some(e.importance),
        confidence: Some(e.confidence),
        domain: Some(e.domain),
        tags: Some(e.tags),
        related_files: Some(e.related_files),
        archived: Some(e.archived),
        applications: Some(e.applications),
        last_reinforced: Some(e.last_reinforced),
    }
}

/// What an event tells a peer, given the record it is about as it is now; nothing
/// where that record is gone, or for an event that is never sent.
pub open spec fn payload(record: WatchEventRecord, found: Option<Entity>) -> Option<SyncPayload> {
    let id = id_value(record.entity_id);
    let timestamp = Timestamp { millis: record.timestamp_ms };
    match (record.entity_type, record.event_type) {
        (EntityTypeTag::Experience, WatchEventTypeTag::Created) => match found {
            Some(Entity::Experience(e)) => Some(SyncPayload::ExperienceCreated(e)),
            _ => None,
        },
        (EntityTypeTag::Experience, WatchEventTypeTag::Updated) => match found {
            Some(Entity::Experience(e)) => Some(
                SyncPayload::ExperienceUpdated {
                    id: ExperienceId { value: id },
                    update: full_update(e),
                    timestamp,
                },
            ),
            _ => None,
        },
        (EntityTypeTag::Experience, WatchEventTypeTag::Archived) => Some(
            SyncPayload::ExperienceArchived { id: ExperienceId { value: id }, timestamp },
        ),
        (EntityTypeTag::Experience, WatchEventTypeTag::Deleted) => Some(
            SyncPayload::ExperienceDeleted { id: ExperienceId { value: id }, timestamp },
        ),
        (EntityTypeTag::Relation, WatchEventTypeTag::Created) => match found {
            Some(Entity::Relation(r)) => Some(SyncPayload::RelationCreated(r)),
            _ => None,
        },
        (EntityTypeTag::Relation, WatchEventTypeTag::Deleted) => Some(
            SyncPayload::RelationDeleted { id: RelationId { value: id }, timestamp },
        ),
        (EntityTypeTag::Insight, WatchEventTypeTag::Created) => match found {
            Some(Entity::Insight(x)) => Some(SyncPayload::InsightCreated(x)),
            _ => None,
        },
        (EntityTypeTag::Insight, WatchEventTypeTag::Deleted) => Some(
            SyncPayload::InsightDeleted { id: InsightId { value: id }, timestamp },
        ),
        (EntityTypeTag::Collective, WatchEventTypeTag::Created) => match found {
            Some(Entity::Collective(c)) => Some(SyncPayload::CollectiveCreated(c)),
            _ => None,
        },
        _ => None,
    }
}

/// Builds what an event tells a peer. `found` is the record it is about, as it is
/// now, or why it could not be read; `context` opens the text of that failure.
pub fn build_payload(
    record: &WatchEventRecord,
    found: Result<Option<Entity>, String>,
    context: &str,
) -> (built: Result<Option<SyncPayload>, SyncError>)
    ensures
        built is Err <==> needed(*record) is Some && found is Err,
        built matches Err(e) ==> (e matches SyncError::Transport(m) && (found matches Err(t) && m@
            == context@ + t@)),
        needed(*record) is Some ==> (found matches Ok(f) ==> built == Ok::<
            Option<SyncPayload>,
            SyncError,
        >(payload(*record, f))),
        needed(*record) is None ==> built == Ok::<Option<SyncPayload>, SyncError>(
            payload(*record, None),
        ),
{
    let timestamp = Timestamp::from_millis(record.timestamp_ms);
    if entity_needed(record).is_none() {
        return Ok(
            match (record.entity_type, record.event_type) {
                (EntityTypeTag::Experience, WatchEventTypeTag::Archived) => Some(
                    SyncPayload::ExperienceArchived {
                        id: ExperienceId::from_bytes(record.entity_id),
                        timestamp,
                    },
                ),
                (EntityTypeTag::Experience, WatchEventTypeTag::Deleted) => Some(
                    SyncPayload::ExperienceDeleted {
                        id: ExperienceId::from_bytes(record.entity_id),
                        timestamp,
                    },
                ),
                (EntityTypeTag::Relation, WatchEventTypeTag::Deleted) => Some(
                    SyncPayload::RelationDeleted {
                        id: RelationId::from_bytes(record.entity_id),
                        timestamp,
                    },
                ),
                (EntityTypeTag::Insight, WatchEventTypeTag::Deleted) => Some(
                    SyncPayload::InsightDeleted {
                        id: InsightId::from_bytes(record.entity_id),
                        timestamp,
                    },
                ),
                _ => None,
            },
        );
    }
    let entity = match found {
        Ok(entity) => entity,
        Err(text) => {
            return Err(SyncError::Transport(crate::text::join(context, text.as_str())));
        },
    };
    match (record.entity_type, entity) {
        (EntityTypeTag::Experience, Some(Entity::Experience(e))) => {
            match record.event_type {
                WatchEventTypeTag::Created => Ok(Some(SyncPayload::ExperienceCreated(e))),
                _ => Ok(
                    Some(
                        SyncPayload::ExperienceUpdated {
                            id: ExperienceId::from_bytes(record.entity_id),
                            update: SerializableExperienceUpdate {
                                importance: Some(e.importance),
                                confidence: Some(e.confidence),
                                domain: Some(e.domain),
                                tags: Some(e.tags),
                                related_files: Some(e.related_files),
                                archived: Some(e.archived),
                                applications: Some(e.applications),
                                last_reinforced: Some(e.last_reinforced),
                            },
                            timestamp,
                        },
                    ),
                ),
            }
        },
        (EntityTypeTag::Relation, Some(Entity::Relation(r))) => Ok(
            Some(SyncPayload::RelationCreated(r)),
        ),
        (EntityTypeTag::Insight, Some(Entity::Insight(x))) => Ok(
            Some(SyncPayload::InsightCreated(x)),
        ),
        (EntityTypeTag::Collective, Some(Entity::Collective(c))) => Ok(
            Some(SyncPayload::CollectiveCreated(c)),
        ),
        _ => Ok(None),
    }
}

/// The kind of record an event is about, as it travels.
pub open spec fn entity_kind(tag: EntityTypeTag) -> SyncEntityType {
    match tag {
        EntityTypeTag::Experience => SyncEntityType::Experience,
        EntityTypeTag::Relation => SyncEntityType::Relation,
        EntityTypeTag::Insight => SyncEntityType::Insight,
        EntityTypeTag::Collective => SyncEntityType::Collective,
    }
}

/// The change that event `sequence` of `source`'s log stands for, with `payload`.
pub open spec fn change_of(
    sequence: u64,
    record: WatchEventRecord,
    source: InstanceId,
    payload: SyncPayload,
) -> SyncChange {
    SyncChange {
        sequence,
        source_instance: source,
        collective_id: CollectiveId { value: id_value(record.collective_id) },
        entity_type: entity_kind(record.entity_type),
        payload,
        timestamp: Timestamp { millis: record.timestamp_ms },
    }
}

/// Wraps a payload as the change that event `sequence` of `source`'s log stands
/// for.
pub fn make_change(
    sequence: u64,
    record: &WatchEventRecord,
    source: InstanceId,
    payload: SyncPayload,
) -> (change: SyncChange)
    ensures
        change == change_of(sequence, *record, source, payload),
{
    let entity_type = match record.entity_type {
        EntityTypeTag::Experience => SyncEntityType::Experience,
        EntityTypeTag::Relation => SyncEntityType::Relation,
        EntityTypeTag::Insight => SyncEntityType::Insight,
        EntityTypeTag::Collective => SyncEntityType::Collective,
    };
    SyncChange {
        sequence,
        source_instance: source,
        collective_id: CollectiveId::from_bytes(record.collective_id),
        entity_type,
        payload,
        timestamp: Timestamp::from_millis(record.timestamp_ms),
    }
}

/// An event whose record is gone, and an event that carries no record, are told
/// apart: only the first is dropped for want of a record.
pub proof fn law_absent_record_is_skipped(record: WatchEventRecord)
    ensures
        needed(record) is Some ==> payload(record, None) is None,
        record.entity_type == EntityTypeTag::Experience ==> (needed(record) is None
            ==> payload(record, None) is Some),
{
}

} // verus!
