//! What every mutation keeps: records and their indexes agree, and the log is
//! numbered without gaps at its end.

use vstd::prelude::*;

use crate::model::{DerivedInsight, Experience, ExperienceRelation, ExperienceUpdate, ExperienceV2};
use crate::storage::schema::WatchEventRecord;
use crate::storage::store::StoreView;
use crate::storage::wal::WalContext;
use crate::types::{CollectiveId, ExperienceId, InsightId, InstanceId, RelationId, Timestamp};

verus! {

/// Whether every experience sits in its four tables, and the two indexes and the
/// embeddings hold nothing else.
pub open spec fn experiences_indexed(s: StoreView) -> bool {
    &&& forall|id: ExperienceId| #[trigger]
        s.experiences.contains_key(id) ==> {
            let e = s.experiences[id];
            &&& e.id == id
            &&& s.embeddings.contains_key(id)
            &&& s.by_collective.contains(
                (e.collective_id, crate::storage::experiences::recency_entry(e.timestamp, id)),
            )
            &&& s.by_type.contains(
                (
                    crate::storage::experiences::type_key(e.collective_id, e.experience_type.tag),
                    id,
                ),
            )
        }
    &&& forall|id: ExperienceId| #[trigger]
        s.embeddings.contains_key(id) ==> s.experiences.contains_key(id)
    &&& forall|c: CollectiveId, v: Seq<u8>| #[trigger]
        s.by_collective.contains((c, v)) ==> {
            let id = crate::storage::experiences::entry_id(v);
            &&& s.experiences.contains_key(id)
            &&& c == s.experiences[id].collective_id
            &&& v == crate::storage::experiences::recency_entry(s.experiences[id].timestamp, id)
        }
    &&& forall|k: Seq<u8>, id: ExperienceId| #[trigger]
        s.by_type.contains((k, id)) ==> {
            &&& s.experiences.contains_key(id)
            &&& k == crate::storage::experiences::type_key(
                s.experiences[id].collective_id,
                s.experiences[id].experience_type.tag,
            )
        }
}

/// Whether both relation indexes list exactly the stored relations.
pub open spec fn relations_indexed(s: StoreView) -> bool {
    &&& forall|id: RelationId| #[trigger]
        s.relations.contains_key(id) ==> s.relations[id].id == id && s.by_source.contains(
            (s.relations[id].source_id, id),
        ) && s.by_target.contains((s.relations[id].target_id, id))
    &&& forall|e: ExperienceId, id: RelationId| #[trigger]
        s.by_source.contains((e, id)) ==> s.relations.contains_key(id) && s.relations[id].source_id
            == e
    &&& forall|e: ExperienceId, id: RelationId| #[trigger]
        s.by_target.contains((e, id)) ==> s.relations.contains_key(id) && s.relations[id].target_id
            == e
}

/// Whether the insight index lists exactly the stored insights.
pub open spec fn insights_indexed(s: StoreView) -> bool {
    &&& forall|id: InsightId| #[trigger]
        s.insights.contains_key(id) ==> s.insights[id].id == id
            && s.insights_by_collective.contains((s.insights[id].collective_id, id))
    &&& forall|c: CollectiveId, id: InsightId| #[trigger]
        s.insights_by_collective.contains((c, id)) ==> s.insights.contains_key(id)
            && s.insights[id].collective_id == c
}

/// Recording a new experience keeps records and indexes in agreement.
pub proof fn law_save_experience_keeps_indexes(s: StoreView, e: Experience)
    requires
        experiences_indexed(s),
        !s.experiences.contains_key(e.id),
    ensures
        experiences_indexed(crate::storage::experiences::with_experience(s, e)),
{
    crate::storage::experiences::law_recency_entry_round_trip(e.timestamp, e.id);
}

/// Deleting an experience keeps records and indexes in agreement, and leaves no
/// trace of it in any of its four tables.
pub proof fn law_delete_experience_keeps_indexes(s: StoreView, id: ExperienceId)
    requires
        experiences_indexed(s),
        s.experiences.contains_key(id),
    ensures
        ({
            let after = crate::storage::experiences::without_experience(s, id, s.experiences[id]);
            &&& experiences_indexed(after)
            &&& !after.experiences.contains_key(id)
            &&& !after.embeddings.contains_key(id)
            &&& forall|c: CollectiveId, v: Seq<u8>| #[trigger]
                after.by_collective.contains((c, v)) ==> crate::storage::experiences::entry_id(v)
                    != id
            &&& forall|k: Seq<u8>| !#[trigger] after.by_type.contains((k, id))
        }),
{
    let e = s.experiences[id];
    let after = crate::storage::experiences::without_experience(s, id, e);
    crate::storage::experiences::law_recency_entry_round_trip(e.timestamp, id);
    assert forall|other: ExperienceId| #[trigger] after.experiences.contains_key(other) implies {
        let x = after.experiences[other];
        &&& x.id == other
        &&& after.embeddings.contains_key(other)
        &&& after.by_collective.contains(
            (x.collective_id, crate::storage::experiences::recency_entry(x.timestamp, other)),
        )
        &&& after.by_type.contains(
            (
                crate::storage::experiences::type_key(x.collective_id, x.experience_type.tag),
                other,
            ),
        )
    } by {
        assert(s.experiences.contains_key(other));
        crate::storage::experiences::law_recency_entry_round_trip(
            s.experiences[other].timestamp,
            other,
        );
    }
    assert forall|k: Seq<u8>| !#[trigger] after.by_type.contains((k, id)) by {
        if after.by_type.contains((k, id)) {
            assert(s.by_type.contains((k, id)));
        }
    }
    assert forall|c: CollectiveId, v: Seq<u8>| #[trigger] after.by_collective.contains(
        (c, v),
    ) implies crate::storage::experiences::entry_id(v) != id by {
        assert(s.by_collective.contains((c, v)));
    }
}

/// Deleting an experience right after recording it gives back the store as it was.
pub proof fn law_delete_undoes_save(s: StoreView, e: Experience)
    requires
        experiences_indexed(s),
        !s.experiences.contains_key(e.id),
    ensures
        crate::storage::experiences::without_experience(
            crate::storage::experiences::with_experience(s, e),
            e.id,
            e,
        ) == s,
{
    crate::storage::experiences::law_recency_entry_round_trip(e.timestamp, e.id);
    let back = crate::storage::experiences::without_experience(
        crate::storage::experiences::with_experience(s, e),
        e.id,
        e,
    );
    assert(back.experiences =~= s.experiences);
    assert(!s.embeddings.contains_key(e.id));
    assert(back.embeddings =~= s.embeddings);
    let entry = crate::storage::experiences::recency_entry(e.timestamp, e.id);
    let key = crate::storage::experiences::type_key(e.collective_id, e.experience_type.tag);
    assert(!s.by_collective.contains((e.collective_id, entry)));
    assert(back.by_collective =~= s.by_collective);
    assert(!s.by_type.contains((key, e.id)));
    assert(back.by_type =~= s.by_type);
}

/// Whether `after` is filed under the same keys as `before`.
pub open spec fn same_keys(before: Experience, after: Experience) -> bool {
    after.id == before.id && after.collective_id == before.collective_id && after.timestamp
        == before.timestamp && after.experience_type.tag == before.experience_type.tag
}

/// Rewriting an experience under its own keys keeps records and indexes in
/// agreement.
pub proof fn law_rewrite_keeps_indexes(s: StoreView, id: ExperienceId, after: Experience)
    requires
        experiences_indexed(s),
        s.experiences.contains_key(id),
        same_keys(s.experiences[id], after),
    ensures
        experiences_indexed(StoreView { experiences: s.experiences.insert(id, after), ..s }),
{
}

/// An update, a counter merge and a reinforcement each leave an experience under
/// its own keys.
pub proof fn law_edits_keep_keys(
    before: Experience,
    update: ExperienceUpdate,
    counts: Map<u128, u32>,
    at: Option<Timestamp>,
    own: InstanceId,
    now: Timestamp,
    after: Experience,
)
    ensures
        same_keys(before, crate::storage::experiences::updated(before, update)),
        crate::storage::experiences::is_counter_merge(before, counts, at, after) ==> same_keys(
            before,
            after,
        ),
        crate::storage::experiences::is_reinforcement(before, own, now, after) ==> same_keys(
            before,
            after,
        ),
{
}

/// Reshaping a second-schema experience keeps its keys, and its count in all.
pub proof fn law_reshape_keeps_the_count(v2: ExperienceV2, v3: Experience)
    requires
        crate::storage::experiences::is_reshaped(v2, v3),
    ensures
        v3.id == v2.id,
        v3.collective_id == v2.collective_id,
        v3.timestamp == v2.timestamp,
        v3.experience_type == v2.experience_type,
        crate::gcounter::total(v3.applications@) == v2.applications,
{
    let legacy = choose|legacy: u128| #[trigger]
        crate::storage::experiences::is_legacy_bucket(legacy) && v3.applications@
            == map![legacy => v2.applications];
    let m = v3.applications@;
    assert(m.dom() =~= set![legacy]);
    crate::gcounter::lemma_total_remove(m, legacy);
    assert(m.remove(legacy).dom() =~= Set::empty());
    assert(crate::gcounter::total(m.remove(legacy)) == 0);
}

/// The by-collective entries of one collective, as a list.
pub open spec fn lists_entries_of(
    s: StoreView,
    collective: CollectiveId,
    entries: Seq<[u8; 24]>,
) -> bool {
    forall|v: Seq<u8>| #[trigger]
        s.by_collective.contains((collective, v)) <==> exists|i: int|
            #![trigger entries[i]]
            0 <= i < entries.len() && entries[i]@ == v
}

/// Removing all experiences of a collective keeps records and indexes in
/// agreement, leaves none of that collective, and touches no other collective's.
pub proof fn law_collective_cascade(
    s: StoreView,
    collective: CollectiveId,
    entries: Seq<[u8; 24]>,
    related: Seq<RelationId>,
)
    requires
        experiences_indexed(s),
        lists_entries_of(s, collective, entries),
    ensures
        ({
            let after = crate::storage::cascade::without_collective_experiences(
                s,
                collective,
                entries,
                related,
            );
            &&& experiences_indexed(after)
            &&& forall|id: ExperienceId| #[trigger]
                after.experiences.contains_key(id) <==> s.experiences.contains_key(id)
                    && s.experiences[id].collective_id != collective
            &&& forall|id: ExperienceId| #[trigger]
                after.experiences.contains_key(id) ==> after.experiences[id] == s.experiences[id]
        }),
{
    let after = crate::storage::cascade::without_collective_experiences(
        s,
        collective,
        entries,
        related,
    );
    let ids = crate::storage::cascade::entry_ids(entries).to_set();
    assert forall|id: ExperienceId| #[trigger] ids.contains(id) <==> s.experiences.contains_key(id)
        && s.experiences[id].collective_id == collective by {
        let list = crate::storage::cascade::entry_ids(entries);
        if ids.contains(id) {
            let i = choose|i: int| 0 <= i < list.len() && list[i] == id;
            assert(entries[i]@ == entries[i]@);
            assert(s.by_collective.contains((collective, entries[i]@)));
            assert(list[i] == crate::storage::experiences::entry_id(entries[i]@));
        }
        if s.experiences.contains_key(id) && s.experiences[id].collective_id == collective {
            let e = s.experiences[id];
            let v = crate::storage::experiences::recency_entry(e.timestamp, id);
            crate::storage::experiences::law_recency_entry_round_trip(e.timestamp, id);
            assert(s.by_collective.contains((collective, v)));
            let i = choose|i: int| #![trigger entries[i]] 0 <= i < entries.len() && entries[i]@ == v;
            assert(list[i] == id);
            assert(list.contains(id));
        }
    }
    if entries.len() == 0 {
        assert forall|id: ExperienceId| #[trigger]
            s.experiences.contains_key(id) implies s.experiences[id].collective_id != collective by {
            assert(!ids.contains(id)) by {
                if ids.contains(id) {
                    let list = crate::storage::cascade::entry_ids(entries);
                    let i = choose|i: int| 0 <= i < list.len() && list[i] == id;
                    assert(false);
                }
            }
        }
    } else {
        assert forall|id: ExperienceId| #[trigger] after.experiences.contains_key(id) implies {
            let e = after.experiences[id];
            &&& e.id == id
            &&& after.embeddings.contains_key(id)
            &&& after.by_collective.contains(
                (e.collective_id, crate::storage::experiences::recency_entry(e.timestamp, id)),
            )
            &&& after.by_type.contains(
                (
                    crate::storage::experiences::type_key(e.collective_id, e.experience_type.tag),
                    id,
                ),
            )
        } by {
            assert(s.experiences.contains_key(id));
            let e = s.experiences[id];
            let key = crate::storage::experiences::type_key(
                e.collective_id,
                e.experience_type.tag,
            );
            if crate::storage::cascade::is_type_key_of(key, collective) {
                let tag = choose|tag: crate::storage::schema::ExperienceTypeTag| key
                    == #[trigger] crate::storage::experiences::type_key(collective, tag);
                crate::storage::schema::law_type_index_key_injective(
                    e.collective_id.spec_bytes(),
                    e.experience_type.tag,
                    collective.spec_bytes(),
                    tag,
                );
                lemma_collective_bytes_injective(e.collective_id, collective);
            }
        }
        assert forall|k: Seq<u8>, id: ExperienceId| #[trigger] after.by_type.contains(
            (k, id),
        ) implies after.experiences.contains_key(id) && k == crate::storage::experiences::type_key(
            after.experiences[id].collective_id,
            after.experiences[id].experience_type.tag,
        ) by {
            assert(s.by_type.contains((k, id)));
            let e = s.experiences[id];
            if e.collective_id == collective {
                assert(k == crate::storage::experiences::type_key(
                    collective,
                    e.experience_type.tag,
                ));
                assert(crate::storage::cascade::is_type_key_of(k, collective));
            }
        }
    }
}

proof fn lemma_collective_bytes_injective(a: CollectiveId, b: CollectiveId)
    requires
        a.spec_bytes() == b.spec_bytes(),
    ensures
        a == b,
{
    crate::bytes::lemma_pow256_values();
    crate::bytes::lemma_be_round_trip(a.value as nat, 16);
    crate::bytes::lemma_be_round_trip(b.value as nat, 16);
}

/// Removing all experiences of a collective keeps relations and their indexes in
/// agreement, where `related` are the relations that touch those experiences and
/// none of them reaches into another collective.
pub proof fn law_collective_cascade_keeps_relations(
    s: StoreView,
    collective: CollectiveId,
    entries: Seq<[u8; 24]>,
    related: Seq<RelationId>,
)
    requires
        relations_indexed(s),
        ({
            let ids = crate::storage::cascade::entry_ids(entries).to_set();
            forall|id: RelationId| #[trigger]
                s.relations.contains_key(id) ==> {
                    &&& related.to_set().contains(id) <==> ids.contains(s.relations[id].source_id)
                    &&& related.to_set().contains(id) <==> ids.contains(s.relations[id].target_id)
                }
        }),
    ensures
        relations_indexed(
            crate::storage::cascade::without_collective_experiences(
                s,
                collective,
                entries,
                related,
            ),
        ),
{
    let ids = crate::storage::cascade::entry_ids(entries).to_set();
    let after = crate::storage::cascade::without_collective_experiences(
        s,
        collective,
        entries,
        related,
    );
    if entries.len() > 0 {
        if related.len() == 0 {
            assert forall|id: RelationId| !#[trigger] related.to_set().contains(id) by {}
            assert(after.relations =~= s.relations);
        }
        assert forall|id: RelationId| #[trigger] after.relations.contains_key(id) implies
            after.relations[id].id == id && after.by_source.contains(
            (after.relations[id].source_id, id),
        ) && after.by_target.contains((after.relations[id].target_id, id)) by {
            assert(s.relations.contains_key(id));
        }
        assert forall|e: ExperienceId, id: RelationId| #[trigger] after.by_source.contains(
            (e, id),
        ) implies after.relations.contains_key(id) && after.relations[id].source_id == e by {
            assert(s.by_source.contains((e, id)));
        }
        assert forall|e: ExperienceId, id: RelationId| #[trigger] after.by_target.contains(
            (e, id),
        ) implies after.relations.contains_key(id) && after.relations[id].target_id == e by {
            assert(s.by_target.contains((e, id)));
        }
    }
}

/// Storing a new relation keeps relations and their indexes in agreement, and
/// deleting it right after gives back the store as it was.
pub proof fn law_save_relation_keeps_indexes(s: StoreView, r: ExperienceRelation)
    requires
        relations_indexed(s),
        !s.relations.contains_key(r.id),
    ensures
        relations_indexed(crate::storage::records::with_relation(s, r)),
        crate::storage::records::without_relation(
            crate::storage::records::with_relation(s, r),
            r.id,
            r,
        ) == s,
{
    let back = crate::storage::records::without_relation(
        crate::storage::records::with_relation(s, r),
        r.id,
        r,
    );
    assert(back.relations =~= s.relations);
    assert(!s.by_source.contains((r.source_id, r.id)));
    assert(!s.by_target.contains((r.target_id, r.id)));
    assert(back.by_source =~= s.by_source);
    assert(back.by_target =~= s.by_target);
}

/// Deleting a relation keeps relations and their indexes in agreement, and leaves
/// no trace of it in any of its three tables.
pub proof fn law_delete_relation_keeps_indexes(s: StoreView, id: RelationId)
    requires
        relations_indexed(s),
        s.relations.contains_key(id),
    ensures
        ({
            let after = crate::storage::records::without_relation(s, id, s.relations[id]);
            &&& relations_indexed(after)
            &&& !after.relations.contains_key(id)
            &&& forall|e: ExperienceId| !#[trigger] after.by_source.contains((e, id))
            &&& forall|e: ExperienceId| !#[trigger] after.by_target.contains((e, id))
        }),
{
    let after = crate::storage::records::without_relation(s, id, s.relations[id]);
    assert forall|e: ExperienceId| !#[trigger] after.by_source.contains((e, id)) by {
        if after.by_source.contains((e, id)) {
            assert(s.by_source.contains((e, id)));
        }
    }
    assert forall|e: ExperienceId| !#[trigger] after.by_target.contains((e, id)) by {
        if after.by_target.contains((e, id)) {
            assert(s.by_target.contains((e, id)));
        }
    }
}

/// Removing the relations of an experience keeps relations and their indexes in
/// agreement, and leaves no relation that touches the experience.
pub proof fn law_experience_cascade_keeps_relations(
    s: StoreView,
    experience: ExperienceId,
    rows: Seq<ExperienceRelation>,
)
    requires
        relations_indexed(s),
        forall|i: int|
            #![trigger rows[i]]
            0 <= i < rows.len() ==> s.relations.contains_key(rows[i].id) && s.relations[rows[i].id]
                == rows[i],
        forall|id: RelationId| #[trigger]
            s.relations.contains_key(id) && (s.relations[id].source_id == experience
                || s.relations[id].target_id == experience) ==> rows.contains(s.relations[id]),
    ensures
        ({
            let after = crate::storage::cascade::without_relations(s, rows);
            &&& relations_indexed(after)
            &&& forall|id: RelationId| #[trigger]
                after.relations.contains_key(id) ==> after.relations[id].source_id != experience
                    && after.relations[id].target_id != experience
        }),
{
    let after = crate::storage::cascade::without_relations(s, rows);
    let gone = crate::storage::cascade::relation_set(rows);
    let f = |r: ExperienceRelation| r.id;
    let g = |r: ExperienceRelation| (r.source_id, r.id);
    let h = |r: ExperienceRelation| (r.target_id, r.id);
    assert forall|id: RelationId| #[trigger] s.relations.contains_key(id) implies (gone.contains(id)
        <==> rows.contains(s.relations[id])) && (gone.contains(id)
        <==> crate::storage::cascade::source_pairs(rows).contains((s.relations[id].source_id, id)))
        && (gone.contains(id) <==> crate::storage::cascade::target_pairs(rows).contains(
        (s.relations[id].target_id, id),
    )) by {
        if gone.contains(id) {
            let i = choose|i: int| 0 <= i < rows.map_values(f).len() && rows.map_values(f)[i] == id;
            assert(rows[i].id == id);
            assert(rows[i] == s.relations[id]);
            assert(rows.map_values(g)[i] == (s.relations[id].source_id, id));
            assert(rows.map_values(h)[i] == (s.relations[id].target_id, id));
            assert(rows.map_values(g).contains((s.relations[id].source_id, id)));
            assert(rows.map_values(h).contains((s.relations[id].target_id, id)));
        }
        if rows.contains(s.relations[id]) {
            let i = choose|i: int| 0 <= i < rows.len() && rows[i] == s.relations[id];
            assert(rows.map_values(f)[i] == id);
            assert(rows.map_values(f).contains(id));
        }
        if crate::storage::cascade::source_pairs(rows).contains((s.relations[id].source_id, id)) {
            let i = choose|i: int|
                0 <= i < rows.map_values(g).len() && rows.map_values(g)[i] == (
                    s.relations[id].source_id,
                    id,
                );
            assert(rows[i].id == id);
            assert(rows.map_values(f)[i] == id);
            assert(rows.map_values(f).contains(id));
        }
        if crate::storage::cascade::target_pairs(rows).contains((s.relations[id].target_id, id)) {
            let i = choose|i: int|
                0 <= i < rows.map_values(h).len() && rows.map_values(h)[i] == (
                    s.relations[id].target_id,
                    id,
                );
            assert(rows[i].id == id);
            assert(rows.map_values(f)[i] == id);
            assert(rows.map_values(f).contains(id));
        }
    }
    assert forall|e: ExperienceId, id: RelationId| #[trigger] after.by_source.contains(
        (e, id),
    ) implies after.relations.contains_key(id) && after.relations[id].source_id == e by {
        assert(s.by_source.contains((e, id)));
        assert(s.relations.contains_key(id));
    }
    assert forall|e: ExperienceId, id: RelationId| #[trigger] after.by_target.contains(
        (e, id),
    ) implies after.relations.contains_key(id) && after.relations[id].target_id == e by {
        assert(s.by_target.contains((e, id)));
        assert(s.relations.contains_key(id));
    }
    assert forall|id: RelationId| #[trigger] after.relations.contains_key(id) implies
        after.relations[id].id == id && after.by_source.contains(
        (after.relations[id].source_id, id),
    ) && after.by_target.contains((after.relations[id].target_id, id))
        && after.relations[id].source_id != experience && after.relations[id].target_id
        != experience by {
        assert(s.relations.contains_key(id));
    }
}

/// Storing a new insight keeps insights and their index in agreement, and
/// deleting it right after gives back the store as it was.
pub proof fn law_save_insight_keeps_indexes(s: StoreView, x: DerivedInsight)
    requires
        insights_indexed(s),
        !s.insights.contains_key(x.id),
    ensures
        insights_indexed(crate::storage::records::with_insight(s, x)),
        crate::storage::records::without_insight(
            crate::storage::records::with_insight(s, x),
            x.id,
            x,
        ) == s,
{
    let back = crate::storage::records::without_insight(
        crate::storage::records::with_insight(s, x),
        x.id,
        x,
    );
    assert(back.insights =~= s.insights);
    assert(!s.insights_by_collective.contains((x.collective_id, x.id)));
    assert(back.insights_by_collective =~= s.insights_by_collective);
}

/// Deleting an insight keeps insights and their index in agreement, and leaves no
/// trace of it in either table.
pub proof fn law_delete_insight_keeps_indexes(s: StoreView, id: InsightId)
    requires
        insights_indexed(s),
        s.insights.contains_key(id),
    ensures
        ({
            let after = crate::storage::records::without_insight(s, id, s.insights[id]);
            &&& insights_indexed(after)
            &&& !after.insights.contains_key(id)
            &&& forall|c: CollectiveId| !#[trigger] after.insights_by_collective.contains((c, id))
        }),
{
    let after = crate::storage::records::without_insight(s, id, s.insights[id]);
    assert forall|c: CollectiveId| !#[trigger] after.insights_by_collective.contains((c, id)) by {
        if after.insights_by_collective.contains((c, id)) {
            assert(s.insights_by_collective.contains((c, id)));
        }
    }
}

/// Removing all insights of a collective keeps insights and their index in
/// agreement, leaves none of that collective, and touches no other collective's.
pub proof fn law_insight_cascade(s: StoreView, collective: CollectiveId, ids: Seq<InsightId>)
    requires
        insights_indexed(s),
        forall|i: InsightId| #[trigger]
            ids.to_set().contains(i) <==> s.insights_by_collective.contains((collective, i)),
    ensures
        ({
            let after = crate::storage::cascade::without_collective_insights(s, collective, ids);
            &&& insights_indexed(after)
            &&& forall|id: InsightId| #[trigger]
                after.insights.contains_key(id) <==> s.insights.contains_key(id)
                    && s.insights[id].collective_id != collective
            &&& forall|id: InsightId| #[trigger]
                after.insights.contains_key(id) ==> after.insights[id] == s.insights[id]
        }),
{
    let after = crate::storage::cascade::without_collective_insights(s, collective, ids);
    assert forall|id: InsightId| #[trigger] s.insights.contains_key(id) implies (
    ids.to_set().contains(id) <==> s.insights[id].collective_id == collective) by {
        if ids.to_set().contains(id) {
            assert(s.insights_by_collective.contains((collective, id)));
        }
    }
    if ids.len() > 0 {
        assert forall|i: InsightId| #[trigger] after.insights.contains_key(i) implies
            after.insights[i].id == i && after.insights_by_collective.contains(
            (after.insights[i].collective_id, i),
        ) by {
            assert(s.insights.contains_key(i));
        }
        assert forall|c: CollectiveId, i: InsightId| #[trigger]
            after.insights_by_collective.contains((c, i)) implies after.insights.contains_key(i)
            && after.insights[i].collective_id == c by {
            assert(s.insights_by_collective.contains((c, i)));
        }
    } else {
        assert forall|id: InsightId| #[trigger]
            s.insights.contains_key(id) implies s.insights[id].collective_id != collective by {
            assert(!ids.to_set().contains(id));
        }
    }
}

/// Whether the log's counter is readable and no event is numbered beyond it.
pub open spec fn log_numbered(s: StoreView) -> bool {
    &&& s.wal_sequence matches Some(bytes) ==> bytes.len() == 8
    &&& forall|k: Seq<u8>| #[trigger]
        s.events.contains_key(k) ==> k.len() == 8 && 1 <= crate::bytes::be_value(k)
            <= log_position(s)
}

/// The number of the newest event.
pub open spec fn log_position(s: StoreView) -> nat {
    match s.wal_sequence {
        Some(bytes) => crate::bytes::be_value(bytes),
        None => 0,
    }
}

/// Recording an event numbers it one past the newest, keeps every earlier event,
/// and touches nothing but the log. Where a peer's change is being applied,
/// nothing is recorded at all.
pub proof fn law_recording_extends_the_log(s: StoreView, wal: WalContext, record: WatchEventRecord)
    requires
        log_numbered(s),
        wal.has_room(),
        wal.stored is Some <==> s.wal_sequence is Some,
        wal.stored matches Some(bytes) ==> s.wal_sequence == Some(bytes@),
    ensures
        wal.records(),
        wal.applying ==> wal.logged(s, record) == s,
        !wal.applying ==> ({
            let after = wal.logged(s, record);
            &&& log_numbered(after)
            &&& log_position(after) == log_position(s) + 1
            &&& wal.next() == log_position(after)
            &&& after.events[crate::storage::wal::event_key(log_position(after) as u64)] == record
            &&& !s.events.contains_key(
                crate::storage::wal::event_key(log_position(after) as u64),
            )
            &&& forall|k: Seq<u8>| #[trigger]
                s.events.contains_key(k) ==> after.events.contains_key(k) && after.events[k]
                    == s.events[k]
            &&& after == (StoreView {
                wal_sequence: after.wal_sequence,
                events: after.events,
                ..s
            })
        }),
{
    if !wal.applying {
        let n = wal.sequence() + 1;
        let key = crate::storage::wal::event_key(n as u64);
        crate::bytes::lemma_pow256_values();
        crate::bytes::lemma_be_len(n as nat, 8);
        crate::bytes::lemma_be_round_trip(n as nat, 8);
    }
}

} // verus!
