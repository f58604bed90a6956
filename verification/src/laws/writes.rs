//! What a write does to a store, and in which order writes are done.

use vstd::prelude::*;

use crate::storage::store::{Plan, StoreOp, StoreView};

verus! {

/// Whether a table after a write holds `value` under `key`, and every other row as before.
pub open spec fn row_put<K, V>(before: Map<K, V>, after: Map<K, V>, key: K, value: V) -> bool {
    &&& after.dom().contains(key)
    &&& after[key] == value
    &&& rows_kept(before, after, key)
}

/// Whether a table after a write holds no row under `key`, and every other row as before.
pub open spec fn row_gone<K, V>(before: Map<K, V>, after: Map<K, V>, key: K) -> bool {
    &&& !after.dom().contains(key)
    &&& rows_kept(before, after, key)
}

/// Whether two tables agree on every row but that under `key`.
pub open spec fn rows_kept<K, V>(before: Map<K, V>, after: Map<K, V>, key: K) -> bool {
    forall|k: K| #![trigger after.dom().contains(k)]
        k != key ==> {
            &&& after.dom().contains(k) <==> before.dom().contains(k)
            &&& before.dom().contains(k) ==> after[k] == before[k]
        }
}

/// Whether an index after a write holds `entry`, and every other entry as before.
pub open spec fn entry_put<E>(before: Set<E>, after: Set<E>, entry: E) -> bool {
    forall|e: E| #[trigger] after.contains(e) <==> before.contains(e) || e == entry
}

/// Whether an index after a write lacks `entry`, and holds every other entry as before.
pub open spec fn entry_gone<E>(before: Set<E>, after: Set<E>, entry: E) -> bool {
    forall|e: E| #[trigger] after.contains(e) <==> before.contains(e) && e != entry
}

/// Whether an index after a write lacks every entry under `key`, and holds every other entry
/// as before.
pub open spec fn key_cleared<K, V>(before: Set<(K, V)>, after: Set<(K, V)>, key: K) -> bool {
    forall|e: (K, V)| #[trigger] after.contains(e) <==> before.contains(e) && e.0 != key
}

/// A plan without writes changes nothing, and the writes of a plan are done one after the
/// other: what a longer plan leaves is what its last write leaves of what the others left.
pub proof fn law_writes_in_order(
    nothing: Plan,
    first: Plan,
    last: Plan,
    both: Plan,
    op: StoreOp,
    s: StoreView,
)
    requires
        nothing.ops@.len() == 0,
        last.ops@ == seq![op],
        both.ops@ == first.ops@.push(op),
    ensures
        nothing.effect(s) == s,
        both.effect(s) == last.effect(first.effect(s)),
{
    reveal_with_fuel(crate::storage::store::apply_all, 2);
    assert(both.ops@.drop_last() == first.ops@);
    assert(last.ops@.drop_last().len() == 0);
}

/// A write of a single value replaces that value and nothing else.
pub proof fn law_written_value(plan: Plan, op: StoreOp, s: StoreView, after: StoreView)
    requires
        plan.ops@ == seq![op],
        after == plan.effect(s),
    ensures
        op matches StoreOp::PutMetadata(m) ==> after.metadata == Some(m) && s == (StoreView {
            metadata: s.metadata,
            ..after
        }),
        op matches StoreOp::SetMarker(b) ==> after.marker == Some(b@) && s == (StoreView {
            marker: s.marker,
            ..after
        }),
        op matches StoreOp::SetInstanceId(b) ==> after.instance_id == Some(b@) && s == (StoreView {
            instance_id: s.instance_id,
            ..after
        }),
        op matches StoreOp::SetWalSequence(b) ==> after.wal_sequence == Some(b@) && s == (
        StoreView { wal_sequence: s.wal_sequence, ..after }),
        op matches StoreOp::SetProviderIdentity(b) ==> after.provider_identity == Some(b@) && s == (
        StoreView { provider_identity: s.provider_identity, ..after }),
        op matches StoreOp::SetProviderStampedAt(b) ==> after.provider_stamped_at == Some(b@) && s
            == (StoreView { provider_stamped_at: s.provider_stamped_at, ..after }),
{
    reveal_with_fuel(crate::storage::store::apply_all, 2);
    assert(plan.ops@.drop_last().len() == 0);
}

/// A write of a row puts the record given under the identifier given into the table of its
/// kind, and a removal takes the row under the identifier given out of it; every other row and
/// every other table stays.
pub proof fn law_written_row(plan: Plan, op: StoreOp, s: StoreView, after: StoreView)
    requires
        plan.ops@ == seq![op],
        after == plan.effect(s),
    ensures
        op matches StoreOp::PutCollective(id, c) ==> row_put(
            s.collectives,
            after.collectives,
            id,
            c,
        ) && s == (StoreView { collectives: s.collectives, ..after }),
        op matches StoreOp::RemoveCollective(id) ==> row_gone(s.collectives, after.collectives, id)
            && s == (StoreView { collectives: s.collectives, ..after }),
        op matches StoreOp::PutDecayConfig(id, c) ==> row_put(
            s.decay_configs,
            after.decay_configs,
            id,
            c,
        ) && s == (StoreView { decay_configs: s.decay_configs, ..after }),
        op matches StoreOp::PutExperience(id, e) ==> row_put(
            s.experiences,
            after.experiences,
            id,
            e,
        ) && s == (StoreView { experiences: s.experiences, ..after }),
        op matches StoreOp::RemoveExperience(id) ==> row_gone(s.experiences, after.experiences, id)
            && s == (StoreView { experiences: s.experiences, ..after }),
        op matches StoreOp::PutEmbedding(id, b) ==> row_put(
            s.embeddings,
            after.embeddings,
            id,
            b@,
        ) && s == (StoreView { embeddings: s.embeddings, ..after }),
        op matches StoreOp::RemoveEmbedding(id) ==> row_gone(s.embeddings, after.embeddings, id)
            && s == (StoreView { embeddings: s.embeddings, ..after }),
        op matches StoreOp::PutRelation(id, r) ==> row_put(s.relations, after.relations, id, r) && s
            == (StoreView { relations: s.relations, ..after }),
        op matches StoreOp::RemoveRelation(id) ==> row_gone(s.relations, after.relations, id) && s
            == (StoreView { relations: s.relations, ..after }),
        op matches StoreOp::PutInsight(id, i) ==> row_put(s.insights, after.insights, id, i) && s
            == (StoreView { insights: s.insights, ..after }),
        op matches StoreOp::RemoveInsight(id) ==> row_gone(s.insights, after.insights, id) && s == (
        StoreView { insights: s.insights, ..after }),
        op matches StoreOp::PutActivity(k, a) ==> row_put(s.activities, after.activities, k@, a)
            && s == (StoreView { activities: s.activities, ..after }),
        op matches StoreOp::RemoveActivity(k) ==> row_gone(s.activities, after.activities, k@) && s
            == (StoreView { activities: s.activities, ..after }),
        op matches StoreOp::PutEvent(k, r) ==> row_put(s.events, after.events, k@, r) && s == (
        StoreView { events: s.events, ..after }),
        op matches StoreOp::RemoveEvent(k) ==> row_gone(s.events, after.events, k@) && s == (
        StoreView { events: s.events, ..after }),
        op matches StoreOp::PutCursor(id, c) ==> row_put(s.cursors, after.cursors, id, c) && s == (
        StoreView { cursors: s.cursors, ..after }),
{
    reveal_with_fuel(crate::storage::store::apply_all, 2);
    assert(plan.ops@.drop_last().len() == 0);
}

/// A link puts one entry into the index of its kind, an unlinking takes that one entry out, and
/// a clearing takes out every entry under its key; every other entry and every other table
/// stays.
pub proof fn law_written_entry(plan: Plan, op: StoreOp, s: StoreView, after: StoreView)
    requires
        plan.ops@ == seq![op],
        after == plan.effect(s),
    ensures
        op matches StoreOp::LinkByCollective(c, v) ==> entry_put(
            s.by_collective,
            after.by_collective,
            (c, v@),
        ) && s == (StoreView { by_collective: s.by_collective, ..after }),
        op matches StoreOp::UnlinkByCollective(c, v) ==> entry_gone(
            s.by_collective,
            after.by_collective,
            (c, v@),
        ) && s == (StoreView { by_collective: s.by_collective, ..after }),
        op matches StoreOp::ClearByCollective(c) ==> key_cleared(
            s.by_collective,
            after.by_collective,
            c,
        ) && s == (StoreView { by_collective: s.by_collective, ..after }),
        op matches StoreOp::LinkByType(k, id) ==> entry_put(s.by_type, after.by_type, (k@, id)) && s
            == (StoreView { by_type: s.by_type, ..after }),
        op matches StoreOp::UnlinkByType(k, id) ==> entry_gone(s.by_type, after.by_type, (k@, id))
            && s == (StoreView { by_type: s.by_type, ..after }),
        op matches StoreOp::ClearByType(k) ==> key_cleared(s.by_type, after.by_type, k@) && s == (
        StoreView { by_type: s.by_type, ..after }),
        op matches StoreOp::LinkBySource(e, r) ==> entry_put(s.by_source, after.by_source, (e, r))
            && s == (StoreView { by_source: s.by_source, ..after }),
        op matches StoreOp::UnlinkBySource(e, r) ==> entry_gone(
            s.by_source,
            after.by_source,
            (e, r),
        ) && s == (StoreView { by_source: s.by_source, ..after }),
        op matches StoreOp::ClearBySource(e) ==> key_cleared(s.by_source, after.by_source, e) && s
            == (StoreView { by_source: s.by_source, ..after }),
        op matches StoreOp::LinkByTarget(e, r) ==> entry_put(s.by_target, after.by_target, (e, r))
            && s == (StoreView { by_target: s.by_target, ..after }),
        op matches StoreOp::UnlinkByTarget(e, r) ==> entry_gone(
            s.by_target,
            after.by_target,
            (e, r),
        ) && s == (StoreView { by_target: s.by_target, ..after }),
        op matches StoreOp::ClearByTarget(e) ==> key_cleared(s.by_target, after.by_target, e) && s
            == (StoreView { by_target: s.by_target, ..after }),
        op matches StoreOp::LinkInsight(c, i) ==> entry_put(
            s.insights_by_collective,
            after.insights_by_collective,
            (c, i),
        ) && s == (StoreView { insights_by_collective: s.insights_by_collective, ..after }),
        op matches StoreOp::UnlinkInsight(c, i) ==> entry_gone(
            s.insights_by_collective,
            after.insights_by_collective,
            (c, i),
        ) && s == (StoreView { insights_by_collective: s.insights_by_collective, ..after }),
        op matches StoreOp::ClearInsights(c) ==> key_cleared(
            s.insights_by_collective,
            after.insights_by_collective,
            c,
        ) && s == (StoreView { insights_by_collective: s.insights_by_collective, ..after }),
{
    reveal_with_fuel(crate::storage::store::apply_all, 2);
    assert(plan.ops@.drop_last().len() == 0);
}

} // verus!
