//! What a store holds, and the writes that change it.
//!
//! Every mutation of the engine is computed as a [`Plan`]: the ordered list of
//! writes that one transaction performs. What a plan means is defined on
//! [`StoreView`], so the effect of a mutation can be stated and proved without
//! touching a disk.

use vstd::prelude::*;

use crate::model::{Activity, Collective, DerivedInsight, Experience, ExperienceRelation, SyncCursor};
use crate::storage::decay::StoredDecayConfig;
use crate::storage::schema::{DatabaseMetadata, WatchEventRecord};
use crate::types::{CollectiveId, ExperienceId, InsightId, InstanceId, RelationId};

verus! {

/// The contents of a store, table by table. An index is the set of its
/// key-value pairs.
#[verifier::ext_equal]
pub struct StoreView {
    /// The `db_metadata` record.
    pub metadata: Option<DatabaseMetadata>,
    /// Raw bytes under the substrate-format key.
    pub marker: Option<Seq<u8>>,
    /// Raw bytes under the instance-id key.
    pub instance_id: Option<Seq<u8>>,
    /// Raw bytes under the sequence key.
    pub wal_sequence: Option<Seq<u8>>,
    /// Serialized embedding-provider identity.
    pub provider_identity: Option<Seq<u8>>,
    /// Serialized moment the provider identity was stamped.
    pub provider_stamped_at: Option<Seq<u8>>,
    /// Collectives.
    pub collectives: Map<CollectiveId, Collective>,
    /// Decay configuration per collective.
    pub decay_configs: Map<CollectiveId, StoredDecayConfig>,
    /// Experience records.
    pub experiences: Map<ExperienceId, Experience>,
    /// Embedding bytes per experience.
    pub embeddings: Map<ExperienceId, Seq<u8>>,
    /// Collective to moment-and-experience entries.
    pub by_collective: Set<(CollectiveId, Seq<u8>)>,
    /// Collective-and-kind key to experience.
    pub by_type: Set<(Seq<u8>, ExperienceId)>,
    /// Relation records.
    pub relations: Map<RelationId, ExperienceRelation>,
    /// Source experience to relation.
    pub by_source: Set<(ExperienceId, RelationId)>,
    /// Target experience to relation.
    pub by_target: Set<(ExperienceId, RelationId)>,
    /// Insight records.
    pub insights: Map<InsightId, DerivedInsight>,
    /// Collective to insight.
    pub insights_by_collective: Set<(CollectiveId, InsightId)>,
    /// Activities under their composite keys.
    pub activities: Map<Seq<u8>, Activity>,
    /// Watch-event log under big-endian sequence keys.
    pub events: Map<Seq<u8>, WatchEventRecord>,
    /// Sync cursor per peer.
    pub cursors: Map<InstanceId, SyncCursor>,
}

/// One write.
#[derive(Debug)]
pub enum StoreOp {
    /// Writes the `db_metadata` record.
    PutMetadata(DatabaseMetadata),
    /// Writes the substrate-format marker.
    SetMarker([u8; 3]),
    /// Writes the instance id.
    SetInstanceId([u8; 16]),
    /// Writes the sequence counter.
    SetWalSequence([u8; 8]),
    /// Writes the embedding-provider identity.
    SetProviderIdentity(Vec<u8>),
    /// Writes the moment the provider identity was stamped.
    SetProviderStampedAt(Vec<u8>),
    /// Inserts or replaces a collective.
    PutCollective(CollectiveId, Collective),
    /// Removes a collective.
    RemoveCollective(CollectiveId),
    /// Inserts or replaces a decay configuration.
    PutDecayConfig(CollectiveId, StoredDecayConfig),
    /// Inserts or replaces an experience record.
    PutExperience(ExperienceId, Experience),
    /// Removes an experience record.
    RemoveExperience(ExperienceId),
    /// Inserts or replaces embedding bytes.
    PutEmbedding(ExperienceId, Vec<u8>),
    /// Removes embedding bytes.
    RemoveEmbedding(ExperienceId),
    /// Adds a moment-and-experience entry to a collective.
    LinkByCollective(CollectiveId, [u8; 24]),
    /// Removes a moment-and-experience entry from a collective.
    UnlinkByCollective(CollectiveId, [u8; 24]),
    /// Removes every moment-and-experience entry of a collective.
    ClearByCollective(CollectiveId),
    /// Adds an experience to a collective-and-kind key.
    LinkByType([u8; 17], ExperienceId),
    /// Removes an experience from a collective-and-kind key.
    UnlinkByType([u8; 17], ExperienceId),
    /// Removes every experience of a collective-and-kind key.
    ClearByType([u8; 17]),
    /// Inserts or replaces a relation record.
    PutRelation(RelationId, ExperienceRelation),
    /// Removes a relation record.
    RemoveRelation(RelationId),
    /// Adds a relation to its source experience.
    LinkBySource(ExperienceId, RelationId),
    /// Removes a relation from its source experience.
    UnlinkBySource(ExperienceId, RelationId),
    /// Removes every relation of a source experience.
    ClearBySource(ExperienceId),
    /// Adds a relation to its target experience.
    LinkByTarget(ExperienceId, RelationId),
    /// Removes a relation from its target experience.
    UnlinkByTarget(ExperienceId, RelationId),
    /// Removes every relation of a target experience.
    ClearByTarget(ExperienceId),
    /// Inserts or replaces an insight record.
    PutInsight(InsightId, DerivedInsight),
    /// Removes an insight record.
    RemoveInsight(InsightId),
    /// Adds an insight to its collective.
    LinkInsight(CollectiveId, InsightId),
    /// Removes an insight from its collective.
    UnlinkInsight(CollectiveId, InsightId),
    /// Removes every insight entry of a collective.
    ClearInsights(CollectiveId),
    /// Inserts or replaces an activity.
    PutActivity(Vec<u8>, Activity),
    /// Removes an activity.
    RemoveActivity(Vec<u8>),
    /// Appends a watch event.
    PutEvent([u8; 8], WatchEventRecord),
    /// Removes a watch event.
    RemoveEvent([u8; 8]),
    /// Inserts or replaces a sync cursor.
    PutCursor(InstanceId, SyncCursor),
}

/// The store after one write.
pub open spec fn apply_op(s: StoreView, op: StoreOp) -> StoreView {
    match op {
        StoreOp::PutMetadata(m) => StoreView { metadata: Some(m), ..s },
        StoreOp::SetMarker(b) => StoreView { marker: Some(b@), ..s },
        StoreOp::SetInstanceId(b) => StoreView { instance_id: Some(b@), ..s },
        StoreOp::SetWalSequence(b) => StoreView { wal_sequence: Some(b@), ..s },
        StoreOp::SetProviderIdentity(b) => StoreView { provider_identity: Some(b@), ..s },
        StoreOp::SetProviderStampedAt(b) => StoreView { provider_stamped_at: Some(b@), ..s },
        StoreOp::PutCollective(id, c) => StoreView { collectives: s.collectives.insert(id, c), ..s },
        StoreOp::RemoveCollective(id) => StoreView { collectives: s.collectives.remove(id), ..s },
        StoreOp::PutDecayConfig(id, c) => StoreView {
            decay_configs: s.decay_configs.insert(id, c),
            ..s
        },
        StoreOp::PutExperience(id, e) => StoreView { experiences: s.experiences.insert(id, e), ..s },
        StoreOp::RemoveExperience(id) => StoreView { experiences: s.experiences.remove(id), ..s },
        StoreOp::PutEmbedding(id, b) => StoreView { embeddings: s.embeddings.insert(id, b@), ..s },
        StoreOp::RemoveEmbedding(id) => StoreView { embeddings: s.embeddings.remove(id), ..s },
        StoreOp::LinkByCollective(c, v) => StoreView {
            by_collective: s.by_collective.insert((c, v@)),
            ..s
        },
        StoreOp::UnlinkByCollective(c, v) => StoreView {
            by_collective: s.by_collective.remove((c, v@)),
            ..s
        },
        StoreOp::ClearByCollective(c) => StoreView {
            by_collective: s.by_collective.filter(|e: (CollectiveId, Seq<u8>)| e.0 != c),
            ..s
        },
        StoreOp::LinkByType(k, id) => StoreView { by_type: s.by_type.insert((k@, id)), ..s },
        StoreOp::UnlinkByType(k, id) => StoreView { by_type: s.by_type.remove((k@, id)), ..s },
        StoreOp::ClearByType(k) => StoreView {
            by_type: s.by_type.filter(|e: (Seq<u8>, ExperienceId)| e.0 != k@),
            ..s
        },
        StoreOp::PutRelation(id, r) => StoreView { relations: s.relations.insert(id, r), ..s },
        StoreOp::RemoveRelation(id) => StoreView { relations: s.relations.remove(id), ..s },
        StoreOp::LinkBySource(e, r) => StoreView { by_source: s.by_source.insert((e, r)), ..s },
        StoreOp::UnlinkBySource(e, r) => StoreView { by_source: s.by_source.remove((e, r)), ..s },
        StoreOp::ClearBySource(e) => StoreView {
            by_source: s.by_source.filter(|p: (ExperienceId, RelationId)| p.0 != e),
            ..s
        },
        StoreOp::LinkByTarget(e, r) => StoreView { by_target: s.by_target.insert((e, r)), ..s },
        StoreOp::UnlinkByTarget(e, r) => StoreView { by_target: s.by_target.remove((e, r)), ..s },
        StoreOp::ClearByTarget(e) => StoreView {
            by_target: s.by_target.filter(|p: (ExperienceId, RelationId)| p.0 != e),
            ..s
        },
        StoreOp::PutInsight(id, i) => StoreView { insights: s.insights.insert(id, i), ..s },
        StoreOp::RemoveInsight(id) => StoreView { insights: s.insights.remove(id), ..s },
        StoreOp::LinkInsight(c, i) => StoreView {
            insights_by_collective: s.insights_by_collective.insert((c, i)),
            ..s
        },
        StoreOp::UnlinkInsight(c, i) => StoreView {
            insights_by_collective: s.insights_by_collective.remove((c, i)),
            ..s
        },
        StoreOp::ClearInsights(c) => StoreView {
            insights_by_collective: s.insights_by_collective.filter(
                |p: (CollectiveId, InsightId)| p.0 != c,
            ),
            ..s
        },
        StoreOp::PutActivity(k, a) => StoreView { activities: s.activities.insert(k@, a), ..s },
        StoreOp::RemoveActivity(k) => StoreView { activities: s.activities.remove(k@), ..s },
        StoreOp::PutEvent(k, r) => StoreView { events: s.events.insert(k@, r), ..s },
        StoreOp::RemoveEvent(k) => StoreView { events: s.events.remove(k@), ..s },
        StoreOp::PutCursor(id, c) => StoreView { cursors: s.cursors.insert(id, c), ..s },
    }
}

/// The store after a sequence of writes.
pub open spec fn apply_all(s: StoreView, ops: Seq<StoreOp>) -> StoreView
    decreases ops.len(),
{
    if ops.len() == 0 {
        s
    } else {
        apply_op(apply_all(s, ops.drop_last()), ops.last())
    }
}

/// The writes of one transaction, in order.
#[derive(Debug)]
pub struct Plan {
    /// The writes.
    pub ops: Vec<StoreOp>,
}

impl Plan {
    /// The store after the plan ran on `s`.
    pub open spec fn effect(self, s: StoreView) -> StoreView {
        apply_all(s, self.ops@)
    }

    /// The plan that writes nothing.
    pub fn new() -> (plan: Self)
        ensures
            plan.ops@.len() == 0,
            forall|s: StoreView| #[trigger] plan.effect(s) == s,
    {
        Plan { ops: Vec::new() }
    }

    /// Appends one write.
    pub fn push(&mut self, op: StoreOp)
        ensures
            final(self).ops@ == old(self).ops@.push(op),
            forall|s: StoreView| #[trigger]
                final(self).effect(s) == apply_op(old(self).effect(s), op),
    {
        let ghost before = self.ops@;
        self.ops.push(op);
        proof {
            assert(self.ops@.drop_last() =~= before);
        }
    }
}

} // verus!
