//! Cascading removals: everything a collective or an experience drags along.

use vstd::prelude::*;

use crate::model::ExperienceRelation;
use crate::storage::experiences::{decode_entry_id, entry_id, type_key};
use crate::storage::schema::{encode_type_index_key, ExperienceTypeTag};
use crate::storage::store::{Plan, StoreOp, StoreView};
use crate::types::{CollectiveId, ExperienceId, InsightId, RelationId};

verus! {

/// The distinct relations among `ids`, in order of first appearance.
pub fn distinct_relations(ids: &Vec<RelationId>) -> (out: Vec<RelationId>)
    ensures
        out@.no_duplicates(),
        out@.to_set() == ids@.to_set(),
{
    let mut out: Vec<RelationId> = Vec::new();
    let mut i: usize = 0;
    while i < ids.len()
        invariant
            i <= ids@.len(),
            out@.no_duplicates(),
            forall|r: RelationId| #[trigger] out@.contains(r) <==> ids@.take(i as int).contains(r),
        decreases ids@.len() - i,
    {
        let id: RelationId = ids[i];
        let mut known: bool = false;
        let mut j: usize = 0;
        while j < out.len()
            invariant
                j <= out@.len(),
                known == out@.take(j as int).contains(id),
            decreases out@.len() - j,
        {
            proof {
                assert(out@.take(j + 1) =~= out@.take(j as int).push(out@[j as int]));
                lemma_contains_push(out@.take(j as int), out@[j as int], id);
            }
            if out[j] == id {
                known = true;
            }
            j = j + 1;
        }
        proof {
            assert(out@.take(j as int) =~= out@);
            assert(ids@.take(i + 1) =~= ids@.take(i as int).push(id));
            assert forall|r: RelationId| #[trigger] ids@.take(i + 1).contains(r) <==> (ids@.take(
                i as int,
            ).contains(r) || r == id) by {
                lemma_contains_push(ids@.take(i as int), id, r);
            }
            assert forall|r: RelationId| #[trigger] out@.push(id).contains(r) <==> (out@.contains(r)
                || r == id) by {
                lemma_contains_push(out@, id, r);
            }
        }
        if !known {
            out.push(id);
        }
        i = i + 1;
    }
    proof {
        assert(ids@.take(i as int) =~= ids@);
        assert(out@.to_set() =~= ids@.to_set());
    }
    out
}

pub proof fn lemma_contains_push<T>(s: Seq<T>, x: T, y: T)
    ensures
        s.push(x).contains(y) <==> s.contains(y) || x == y,
{
    if s.contains(y) {
        let i = choose|i: int| 0 <= i < s.len() && s[i] == y;
        assert(s.push(x)[i] == y);
    }
    if x == y {
        assert(s.push(x)[s.len() as int] == y);
    }
    if s.push(x).contains(y) {
        let i = choose|i: int| 0 <= i < s.push(x).len() && s.push(x)[i] == y;
        if i < s.len() {
            assert(s[i] == y);
        }
    }
}

proof fn lemma_take_next<T>(s: Seq<T>, i: int)
    requires
        0 <= i < s.len(),
    ensures
        s.take(i + 1) == s.take(i).push(s[i]),
        forall|y: T| #[trigger]
            s.take(i + 1).to_set().contains(y) <==> s.take(i).to_set().contains(y) || y == s[i],
{
    assert(s.take(i + 1) =~= s.take(i).push(s[i]));
    assert forall|y: T| #[trigger] s.take(i + 1).to_set().contains(y) <==> (s.take(
        i,
    ).to_set().contains(y) || y == s[i]) by {
        lemma_contains_push(s.take(i), s[i], y);
    }
}

/// The experiences that by-collective entries lead to, in entry order.
pub open spec fn entry_ids(entries: Seq<[u8; 24]>) -> Seq<ExperienceId> {
    entries.map_values(|entry: [u8; 24]| entry_id(entry@))
}

/// The experiences of a collective, in entry order: oldest first.
pub fn list_experience_ids_in_collective(entries: &Vec<[u8; 24]>) -> (ids: Vec<ExperienceId>)
    ensures
        ids@ == entry_ids(entries@),
{
    let mut ids: Vec<ExperienceId> = Vec::new();
    let mut i: usize = 0;
    while i < entries.len()
        invariant
            i <= entries@.len(),
            ids@ =~= entry_ids(entries@.take(i as int)),
        decreases entries@.len() - i,
    {
        ids.push(decode_entry_id(&entries[i]));
        i = i + 1;
    }
    proof {
        assert(entries@.take(i as int) =~= entries@);
    }
    ids
}

/// Whether `key` is the by-type key of `collective` for some kind.
pub open spec fn is_type_key_of(key: Seq<u8>, collective: CollectiveId) -> bool {
    exists|tag: ExperienceTypeTag| key == #[trigger] type_key(collective, tag)
}

/// The store after the by-type entries of a collective were cleared.
pub open spec fn without_type_entries(s: StoreView, collective: CollectiveId) -> StoreView {
    StoreView {
        by_type: s.by_type.filter(
            |e: (Seq<u8>, ExperienceId)| !is_type_key_of(e.0, collective),
        ),
        ..s
    }
}

fn push_clear_types(plan: &mut Plan, collective: CollectiveId)
    ensures
        forall|s: StoreView| #[trigger]
            final(plan).effect(s) == without_type_entries(old(plan).effect(s), collective),
{
    let tags = ExperienceTypeTag::all();
    let bytes: [u8; 16] = collective.as_bytes();
    let ghost start = *plan;
    let mut i: usize = 0;
    proof {
        assert forall|s: StoreView| #[trigger] plan.effect(s) == (StoreView {
            by_type: start.effect(s).by_type.filter(
                |e: (Seq<u8>, ExperienceId)| !key_of_first(e.0, collective, 0),
            ),
            ..start.effect(s)
        }) by {
            assert(start.effect(s).by_type.filter(
                |e: (Seq<u8>, ExperienceId)| !key_of_first(e.0, collective, 0),
            ) =~= start.effect(s).by_type);
        }
    }
    while i < 9
        invariant
            i <= 9,
            bytes@ == collective.spec_bytes(),
            forall|j: int| #![trigger tags[j]] 0 <= j < 9 ==> tags[j].byte() == j,
            forall|s: StoreView| #[trigger]
                plan.effect(s) == (StoreView {
                    by_type: start.effect(s).by_type.filter(
                        |e: (Seq<u8>, ExperienceId)| !key_of_first(e.0, collective, i as int),
                    ),
                    ..start.effect(s)
                }),
        decreases 9 - i,
    {
        let ghost before = *plan;
        let key: [u8; 17] = encode_type_index_key(&bytes, tags[i]);
        plan.push(StoreOp::ClearByType(key));
        proof {
            assert(tags[i as int].byte() == i);
            assert(key@ == collective.spec_bytes().push(i as u8));
            assert forall|s: StoreView| #[trigger] plan.effect(s) == (StoreView {
                by_type: start.effect(s).by_type.filter(
                    |e: (Seq<u8>, ExperienceId)| !key_of_first(e.0, collective, i + 1),
                ),
                ..start.effect(s)
            }) by {
                assert forall|k: Seq<u8>| #[trigger] key_of_first(k, collective, i + 1) <==> (
                key_of_first(k, collective, i as int) || k == key@) by {
                    if k == key@ {
                        assert(k == collective.spec_bytes().push((i as int) as u8));
                    }
                }
                assert(before.effect(s).by_type.filter(
                    |e: (Seq<u8>, ExperienceId)| e.0 != key@,
                ) =~= start.effect(s).by_type.filter(
                    |e: (Seq<u8>, ExperienceId)| !key_of_first(e.0, collective, i + 1),
                ));
            }
        }
        i = i + 1;
    }
    proof {
        assert forall|s: StoreView| #[trigger] plan.effect(s) == without_type_entries(
            start.effect(s),
            collective,
        ) by {
            assert forall|k: Seq<u8>| #[trigger] key_of_first(k, collective, 9) <==> is_type_key_of(
                k,
                collective,
            ) by {
                if key_of_first(k, collective, 9) {
                    let b = choose|b: int|
                        #![trigger collective.spec_bytes().push(b as u8)]
                        0 <= b < 9 && k == collective.spec_bytes().push(b as u8);
                    assert(tags[b].byte() == b);
                    assert(k == type_key(collective, tags[b]));
                }
                if is_type_key_of(k, collective) {
                    let tag = choose|tag: ExperienceTypeTag| k == #[trigger] type_key(
                        collective,
                        tag,
                    );
                    let b = tag.byte() as int;
                    assert(0 <= b < 9 && k == collective.spec_bytes().push(b as u8));
                }
            }
            assert(start.effect(s).by_type.filter(
                |e: (Seq<u8>, ExperienceId)| !key_of_first(e.0, collective, 9),
            ) =~= without_type_entries(start.effect(s), collective).by_type);
        }
    }
}

/// Whether `key` is the by-type key of `collective` for one of the first `n`
/// kinds.
spec fn key_of_first(key: Seq<u8>, collective: CollectiveId, n: int) -> bool {
    exists|b: int|
        #![trigger collective.spec_bytes().push(b as u8)]
        0 <= b < n && key == collective.spec_bytes().push(b as u8)
}

/// The store after experiences `ids` were removed, their relation-index entries
/// too where `relations_too` says so.
pub open spec fn without_ids(s: StoreView, ids: Set<ExperienceId>, relations_too: bool) -> StoreView {
    StoreView {
        experiences: s.experiences.remove_keys(ids),
        embeddings: s.embeddings.remove_keys(ids),
        by_source: if relations_too {
            s.by_source.filter(|p: (ExperienceId, RelationId)| !ids.contains(p.0))
        } else {
            s.by_source
        },
        by_target: if relations_too {
            s.by_target.filter(|p: (ExperienceId, RelationId)| !ids.contains(p.0))
        } else {
            s.by_target
        },
        ..s
    }
}

fn push_remove_experiences(plan: &mut Plan, ids: &Vec<ExperienceId>, relations_too: bool)
    ensures
        forall|s: StoreView| #[trigger]
            final(plan).effect(s) == without_ids(
                old(plan).effect(s),
                ids@.to_set(),
                relations_too,
            ),
{
    let ghost start = *plan;
    let mut i: usize = 0;
    proof {
        assert forall|s: StoreView| #[trigger] plan.effect(s) == without_ids(
            start.effect(s),
            ids@.take(0).to_set(),
            relations_too,
        ) by {
            assert(without_ids(start.effect(s), ids@.take(0).to_set(), relations_too)
                =~= start.effect(s));
        }
    }
    while i < ids.len()
        invariant
            i <= ids@.len(),
            forall|s: StoreView| #[trigger]
                plan.effect(s) == without_ids(
                    start.effect(s),
                    ids@.take(i as int).to_set(),
                    relations_too,
                ),
        decreases ids@.len() - i,
    {
        let ghost before = *plan;
        let id: ExperienceId = ids[i];
        plan.push(StoreOp::RemoveExperience(id));
        plan.push(StoreOp::RemoveEmbedding(id));
        if relations_too {
            plan.push(StoreOp::ClearBySource(id));
            plan.push(StoreOp::ClearByTarget(id));
        }
        proof {
            lemma_take_next(ids@, i as int);
            assert forall|s: StoreView| #[trigger] plan.effect(s) == without_ids(
                start.effect(s),
                ids@.take(i + 1).to_set(),
                relations_too,
            ) by {
                assert(before.effect(s) == without_ids(
                    start.effect(s),
                    ids@.take(i as int).to_set(),
                    relations_too,
                ));
                assert(plan.effect(s) =~= without_ids(
                    start.effect(s),
                    ids@.take(i + 1).to_set(),
                    relations_too,
                ));
            }
        }
        i = i + 1;
    }
    proof {
        assert(ids@.take(i as int) =~= ids@);
    }
}

fn push_remove_relations(plan: &mut Plan, ids: &Vec<RelationId>)
    ensures
        forall|s: StoreView| #[trigger]
            final(plan).effect(s) == (StoreView {
                relations: old(plan).effect(s).relations.remove_keys(ids@.to_set()),
                ..old(plan).effect(s)
            }),
{
    let ghost start = *plan;
    let mut i: usize = 0;
    proof {
        assert forall|s: StoreView| #[trigger] plan.effect(s) == (StoreView {
            relations: start.effect(s).relations.remove_keys(ids@.take(0).to_set()),
            ..start.effect(s)
        }) by {
            assert(start.effect(s).relations.remove_keys(ids@.take(0).to_set())
                =~= start.effect(s).relations);
        }
    }
    while i < ids.len()
        invariant
            i <= ids@.len(),
            forall|s: StoreView| #[trigger]
                plan.effect(s) == (StoreView {
                    relations: start.effect(s).relations.remove_keys(ids@.take(i as int).to_set()),
                    ..start.effect(s)
                }),
        decreases ids@.len() - i,
    {
        let ghost before = *plan;
        plan.push(StoreOp::RemoveRelation(ids[i]));
        proof {
            lemma_take_next(ids@, i as int);
            assert forall|s: StoreView| #[trigger] plan.effect(s) == (StoreView {
                relations: start.effect(s).relations.remove_keys(ids@.take(i + 1).to_set()),
                ..start.effect(s)
            }) by {
                assert(before.effect(s).relations.remove(ids@[i as int])
                    =~= start.effect(s).relations.remove_keys(ids@.take(i + 1).to_set()));
            }
        }
        i = i + 1;
    }
    proof {
        assert(ids@.take(i as int) =~= ids@);
    }
}

/// The store after every experience that `entries` lead to was removed from
/// `collective`, together with `related` relations.
pub open spec fn without_collective_experiences(
    s: StoreView,
    collective: CollectiveId,
    entries: Seq<[u8; 24]>,
    related: Seq<RelationId>,
) -> StoreView {
    if entries.len() == 0 {
        s
    } else {
        let removed = without_ids(s, entry_ids(entries).to_set(), related.len() > 0);
        StoreView {
            by_collective: s.by_collective.filter(
                |e: (CollectiveId, Seq<u8>)| e.0 != collective,
            ),
            by_type: without_type_entries(s, collective).by_type,
            relations: s.relations.remove_keys(related.to_set()),
            ..removed
        }
    }
}

/// Removes every experience of a collective, its embedding, its index entries
/// and the relations it takes part in; returns how many experiences there were.
/// `entries` are the collective's by-collective entries, and `related` the
/// relations found under those experiences in both relation indexes, in any
/// order and possibly repeated. Nothing is written where there is no entry.
pub fn delete_experiences_by_collective(
    collective: CollectiveId,
    entries: &Vec<[u8; 24]>,
    related: &Vec<RelationId>,
) -> (out: (Plan, u64))
    ensures
        out.1 == entries@.len(),
        entries@.len() == 0 ==> out.0.ops@.len() == 0,
        forall|s: StoreView| #[trigger]
            out.0.effect(s) == without_collective_experiences(
                s,
                collective,
                entries@,
                related@,
            ),
{
    let ids = list_experience_ids_in_collective(entries);
    let relation_ids = distinct_relations(related);
    let count: u64 = ids.len() as u64;
    let mut plan = Plan::new();
    if count == 0 {
        return (plan, 0);
    }
    proof {
        if related@.len() > 0 {
            assert(related@.contains(related@[0]));
            assert(related@.to_set().contains(related@[0]));
            assert(relation_ids@.to_set().contains(related@[0]));
        } else if relation_ids@.len() > 0 {
            assert(relation_ids@.contains(relation_ids@[0]));
            assert(relation_ids@.to_set().contains(relation_ids@[0]));
            assert(related@.to_set().contains(relation_ids@[0]));
        }
    }
    let some_relations: bool = relation_ids.len() > 0;
    push_remove_experiences(&mut plan, &ids, some_relations);
    plan.push(StoreOp::ClearByCollective(collective));
    push_clear_types(&mut plan, collective);
    push_remove_relations(&mut plan, &relation_ids);
    proof {
        assert forall|s: StoreView| #[trigger] plan.effect(s) == without_collective_experiences(
            s,
            collective,
            entries@,
            related@,
        ) by {
            assert(plan.effect(s) =~= without_collective_experiences(
                s,
                collective,
                entries@,
                related@,
            ));
        }
    }
    (plan, count)
}

/// The source-index pairs of `rows`.
pub open spec fn source_pairs(rows: Seq<ExperienceRelation>) -> Set<(ExperienceId, RelationId)> {
    rows.map_values(|r: ExperienceRelation| (r.source_id, r.id)).to_set()
}

/// The target-index pairs of `rows`.
pub open spec fn target_pairs(rows: Seq<ExperienceRelation>) -> Set<(ExperienceId, RelationId)> {
    rows.map_values(|r: ExperienceRelation| (r.target_id, r.id)).to_set()
}

/// The relations of `rows`.
pub open spec fn relation_set(rows: Seq<ExperienceRelation>) -> Set<RelationId> {
    rows.map_values(|r: ExperienceRelation| r.id).to_set()
}

/// The store after the relations `rows` were removed from their three tables.
pub open spec fn without_relations(s: StoreView, rows: Seq<ExperienceRelation>) -> StoreView {
    StoreView {
        relations: s.relations.remove_keys(relation_set(rows)),
        by_source: s.by_source.difference(source_pairs(rows)),
        by_target: s.by_target.difference(target_pairs(rows)),
        ..s
    }
}

/// Removes the relations an experience takes part in; returns how many distinct
/// ones both indexes list. `ids` are the relations listed under the experience in
/// either index, possibly repeated; `rows` are the records found for them.
/// Nothing is written where no relation is listed.
pub fn delete_relations_for_experience(ids: &Vec<RelationId>, rows: &Vec<ExperienceRelation>) -> (out:
    (Plan, u64))
    ensures
        out.1 == ids@.to_set().len(),
        ids@.len() == 0 ==> out.0.ops@.len() == 0,
        forall|s: StoreView| #[trigger]
            out.0.effect(s) == if ids@.len() == 0 {
                s
            } else {
                without_relations(s, rows@)
            },
{
    let relation_ids = distinct_relations(ids);
    let count: u64 = relation_ids.len() as u64;
    proof {
        relation_ids@.unique_seq_to_set();
        if ids@.len() > 0 {
            assert(ids@.contains(ids@[0]));
            assert(ids@.to_set().contains(ids@[0]));
            assert(relation_ids@.to_set().contains(ids@[0]));
        } else if relation_ids@.len() > 0 {
            assert(relation_ids@.contains(relation_ids@[0]));
            assert(relation_ids@.to_set().contains(relation_ids@[0]));
            assert(ids@.to_set().contains(relation_ids@[0]));
        }
    }
    let mut plan = Plan::new();
    if count == 0 {
        return (plan, 0);
    }
    let ghost start = plan;
    let mut i: usize = 0;
    proof {
        assert forall|s: StoreView| #[trigger] plan.effect(s) == without_relations(
            s,
            rows@.take(0),
        ) by {
            assert(without_relations(s, rows@.take(0)) =~= s);
        }
    }
    while i < rows.len()
        invariant
            i <= rows@.len(),
            forall|s: StoreView| #[trigger]
                plan.effect(s) == without_relations(s, rows@.take(i as int)),
        decreases rows@.len() - i,
    {
        let ghost before = plan;
        let row: &ExperienceRelation = &rows[i];
        plan.push(StoreOp::RemoveRelation(row.id));
        plan.push(StoreOp::UnlinkBySource(row.source_id, row.id));
        plan.push(StoreOp::UnlinkByTarget(row.target_id, row.id));
        proof {
            lemma_row_sets(rows@, i as int);
            assert forall|s: StoreView| #[trigger] plan.effect(s) == without_relations(
                s,
                rows@.take(i + 1),
            ) by {
                assert(before.effect(s) == without_relations(s, rows@.take(i as int)));
                assert(plan.effect(s) =~= without_relations(s, rows@.take(i + 1)));
            }
        }
        i = i + 1;
    }
    proof {
        assert(rows@.take(i as int) =~= rows@);
    }
    (plan, count)
}

proof fn lemma_row_sets(rows: Seq<ExperienceRelation>, i: int)
    requires
        0 <= i < rows.len(),
    ensures
        relation_set(rows.take(i + 1)) == relation_set(rows.take(i)).insert(rows[i].id),
        source_pairs(rows.take(i + 1)) == source_pairs(rows.take(i)).insert(
            (rows[i].source_id, rows[i].id),
        ),
        target_pairs(rows.take(i + 1)) == target_pairs(rows.take(i)).insert(
            (rows[i].target_id, rows[i].id),
        ),
{
    let a = rows.take(i);
    let b = rows.take(i + 1);
    let f = |r: ExperienceRelation| r.id;
    let g = |r: ExperienceRelation| (r.source_id, r.id);
    let h = |r: ExperienceRelation| (r.target_id, r.id);
    assert(b.map_values(f) =~= a.map_values(f).push(rows[i].id));
    assert(b.map_values(g) =~= a.map_values(g).push((rows[i].source_id, rows[i].id)));
    assert(b.map_values(h) =~= a.map_values(h).push((rows[i].target_id, rows[i].id)));
    assert forall|y: RelationId| #[trigger] b.map_values(f).to_set().contains(y) <==> a.map_values(
        f,
    ).to_set().insert(rows[i].id).contains(y) by {
        lemma_contains_push(a.map_values(f), rows[i].id, y);
    }
    assert forall|y: (ExperienceId, RelationId)| #[trigger]
        b.map_values(g).to_set().contains(y) <==> a.map_values(g).to_set().insert(
            (rows[i].source_id, rows[i].id),
        ).contains(y) by {
        lemma_contains_push(a.map_values(g), (rows[i].source_id, rows[i].id), y);
    }
    assert forall|y: (ExperienceId, RelationId)| #[trigger]
        b.map_values(h).to_set().contains(y) <==> a.map_values(h).to_set().insert(
            (rows[i].target_id, rows[i].id),
        ).contains(y) by {
        lemma_contains_push(a.map_values(h), (rows[i].target_id, rows[i].id), y);
    }
    assert(relation_set(b) =~= relation_set(a).insert(rows[i].id));
    assert(source_pairs(b) =~= source_pairs(a).insert((rows[i].source_id, rows[i].id)));
    assert(target_pairs(b) =~= target_pairs(a).insert((rows[i].target_id, rows[i].id)));
}

/// The store after the insights `ids` of `collective` were removed.
pub open spec fn without_collective_insights(
    s: StoreView,
    collective: CollectiveId,
    ids: Seq<InsightId>,
) -> StoreView {
    if ids.len() == 0 {
        s
    } else {
        StoreView {
            insights: s.insights.remove_keys(ids.to_set()),
            insights_by_collective: s.insights_by_collective.filter(
                |p: (CollectiveId, InsightId)| p.0 != collective,
            ),
            ..s
        }
    }
}

/// Removes every insight of a collective; returns how many there were. `ids` are
/// the insights listed under the collective. Nothing is written where there is
/// none.
pub fn delete_insights_by_collective(collective: CollectiveId, ids: &Vec<InsightId>) -> (out: (
    Plan,
    u64,
))
    ensures
        out.1 == ids@.len(),
        ids@.len() == 0 ==> out.0.ops@.len() == 0,
        forall|s: StoreView| #[trigger]
            out.0.effect(s) == without_collective_insights(s, collective, ids@),
{
    let mut plan = Plan::new();
    let count: u64 = ids.len() as u64;
    if count == 0 {
        return (plan, 0);
    }
    let mut i: usize = 0;
    proof {
        assert forall|s: StoreView| #[trigger] plan.effect(s) == (StoreView {
            insights: s.insights.remove_keys(ids@.take(0).to_set()),
            ..s
        }) by {
            assert(s.insights.remove_keys(ids@.take(0).to_set()) =~= s.insights);
        }
    }
    while i < ids.len()
        invariant
            i <= ids@.len(),
            forall|s: StoreView| #[trigger]
                plan.effect(s) == (StoreView {
                    insights: s.insights.remove_keys(ids@.take(i as int).to_set()),
                    ..s
                }),
        decreases ids@.len() - i,
    {
        let ghost before = plan;
        plan.push(StoreOp::RemoveInsight(ids[i]));
        proof {
            lemma_take_next(ids@, i as int);
            assert forall|s: StoreView| #[trigger] plan.effect(s) == (StoreView {
                insights: s.insights.remove_keys(ids@.take(i + 1).to_set()),
                ..s
            }) by {
                assert(before.effect(s).insights.remove(ids@[i as int]) =~= s.insights.remove_keys(
                    ids@.take(i + 1).to_set(),
                ));
            }
        }
        i = i + 1;
    }
    plan.push(StoreOp::ClearInsights(collective));
    proof {
        assert(ids@.take(i as int) =~= ids@);
    }
    (plan, count)
}

} // verus!
