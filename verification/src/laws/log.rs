//! What is read back of the log and of the indexes, and what is cleared from them.

use vstd::prelude::*;

use crate::error::StorageError;
use crate::model::ExperienceRelation;
use crate::storage::cascade::{
    delete_experiences_by_collective, delete_insights_by_collective,
    delete_relations_for_experience, distinct_relations, entry_ids,
    list_experience_ids_in_collective,
};
use crate::storage::experiences::recency_entry;
use crate::storage::listing::{
    get_recent_experience_ids, list_experience_ids_paginated, list_insight_ids_paginated,
    list_relations_in_collective, page, read_row, read_rows,
};
use crate::storage::schema::{EntityTypeTag, WatchEventRecord, WatchEventRecordV1};
use crate::storage::store::{Plan, StoreView};
use crate::storage::wal::{
    compact_wal_events, compacted_count, compacted_keys, encode_event_key, event_key,
    get_wal_sequence, in_order, migrate_wal_v1_to_v2, poll_sync_events, poll_watch_events, polled,
    rows_through, upgrade_event, upgraded_log,
};
use crate::types::{CollectiveId, ExperienceId, InsightId, RelationId, Timestamp};

verus! {

// ---------------------------------------------------------------------------
// Numbering
// ---------------------------------------------------------------------------

/// The counter of the log is the number in its eight bytes, most significant first, and zero
/// where none is stored; any other number of bytes is corrupt.
pub proof fn law_log_counter(stored: &Option<Vec<u8>>, r: Result<u64, StorageError>)
    requires
        call_ensures(get_wal_sequence, (stored,), r),
    ensures
        *stored is None ==> r is Ok && r->Ok_0 == 0,
        *stored is Some ==> (r is Ok <==> stored->Some_0@.len() == 8),
        *stored is Some && r is Ok ==> stored->Some_0@ == crate::bytes::be(r->Ok_0 as nat, 8),
        r is Err ==> r->Err_0 is Corrupted,
{
    if *stored is Some && r is Ok {
        crate::bytes::lemma_be_of_value(stored->Some_0@);
    }
}

/// The key of an event is its number in eight bytes, most significant first, so that the
/// counter stored beside the log is the key of its newest event.
pub proof fn law_log_key(n: u64, key: [u8; 8], stored: &Option<Vec<u8>>, r: Result<u64, StorageError>)
    requires
        call_ensures(encode_event_key, (n,), key),
        *stored is Some,
        stored->Some_0@ == key@,
        call_ensures(get_wal_sequence, (stored,), r),
    ensures
        r is Ok,
        r->Ok_0 == n,
{
    crate::bytes::lemma_pow256_values();
    crate::bytes::lemma_be_len(n as nat, 8);
    crate::bytes::lemma_be_round_trip(n as nat, 8);
    assert(stored->Some_0@.len() == 8);
    assert(r is Ok);
}

// ---------------------------------------------------------------------------
// The first form of an event
// ---------------------------------------------------------------------------

/// An event of the first schema keeps its experience, its collective, what happened and when;
/// it is of an experience, as all such events are.
pub proof fn law_upgraded_event(v1: &WatchEventRecordV1, v2: WatchEventRecord)
    requires
        call_ensures(upgrade_event, (v1,), v2),
    ensures
        v2.entity_id == v1.experience_id,
        v2.collective_id == v1.collective_id,
        v2.event_type == v1.event_type,
        v2.timestamp_ms == v1.timestamp_ms,
        v2.entity_type == EntityTypeTag::Experience,
{
}

/// Migrating a log of the first schema leaves each of its rows under its own key in current
/// form, with its experience, collective, kind of change and date, and changes no other row and
/// no other table.
pub proof fn law_migrated_log(
    rows: &Vec<([u8; 8], WatchEventRecordV1)>,
    plan: Plan,
    s: StoreView,
    i: int,
    key: Seq<u8>,
)
    requires
        forall|a: int, b: int| 0 <= a < b < rows@.len() ==> rows@[a].0@ != rows@[b].0@,
        call_ensures(migrate_wal_v1_to_v2, (rows,), plan),
    ensures
        ({
            let after = plan.effect(s);
            &&& after == (StoreView { events: after.events, ..s })
            &&& 0 <= i < rows@.len() ==> {
                let row = rows@[i];
                let event = after.events[row.0@];
                &&& after.events.contains_key(row.0@)
                &&& event.entity_id == row.1.experience_id
                &&& event.collective_id == row.1.collective_id
                &&& event.event_type == row.1.event_type
                &&& event.timestamp_ms == row.1.timestamp_ms
                &&& event.entity_type == EntityTypeTag::Experience
            }
            &&& (forall|j: int| 0 <= j < rows@.len() ==> (#[trigger] rows@[j]).0@ != key) ==> {
                &&& after.events.contains_key(key) == s.events.contains_key(key)
                &&& after.events[key] == s.events[key]
            }
        }),
{
    assert(plan.effect(s) == (StoreView { events: upgraded_log(s.events, rows@), ..s }));
    if 0 <= i < rows@.len() {
        crate::storage::wal::law_upgraded_log(s.events, rows@, i);
    }
    if forall|j: int| 0 <= j < rows@.len() ==> (#[trigger] rows@[j]).0@ != key {
        lemma_other_rows(s.events, rows@, key);
    }
}

proof fn lemma_other_rows(
    events: Map<Seq<u8>, WatchEventRecord>,
    rows: Seq<([u8; 8], WatchEventRecordV1)>,
    key: Seq<u8>,
)
    requires
        forall|j: int| 0 <= j < rows.len() ==> (#[trigger] rows[j]).0@ != key,
    ensures
        upgraded_log(events, rows).contains_key(key) == events.contains_key(key),
        upgraded_log(events, rows)[key] == events[key],
    decreases rows.len(),
{
    if rows.len() > 0 {
        assert(rows[rows.len() - 1].0@ != key);
        assert forall|j: int| 0 <= j < rows.drop_last().len() implies (
        #[trigger] rows.drop_last()[j]).0@ != key by {
            assert(rows[j].0@ != key);
        }
        lemma_other_rows(events, rows.drop_last(), key);
    }
}

// ---------------------------------------------------------------------------
// Polling
// ---------------------------------------------------------------------------

/// A poll hands out log rows behind the given number and no others, in log order, as many as
/// the limit allows: a row behind the number is handed out unless the limit was reached with
/// earlier ones.
pub proof fn law_poll(
    log: &Vec<(u64, WatchEventRecord)>,
    since: u64,
    limit: usize,
    rows: Vec<(u64, WatchEventRecord)>,
)
    requires
        in_order(log@),
        call_ensures(poll_sync_events, (log, since, limit), rows),
    ensures
        rows@.len() <= limit,
        forall|i: int| 0 <= i < rows@.len() ==> (#[trigger] rows@[i]).0 > since,
        forall|i: int| 0 <= i < rows@.len() ==> log@.contains(#[trigger] rows@[i]),
        forall|i: int, j: int|
            0 <= i < j < rows@.len() ==> (#[trigger] rows@[i]).0 < (#[trigger] rows@[j]).0,
        forall|k: int|
            0 <= k < log@.len() && (#[trigger] log@[k]).0 > since && !rows@.contains(log@[k])
                ==> rows@.len() == limit && forall|i: int|
                0 <= i < rows@.len() ==> (#[trigger] rows@[i]).0 < log@[k].0,
{
    let from = rows_through(log@, since) as int;
    crate::storage::wal::lemma_rows_through_split(log@, since);
    assert(rows@ == polled(log@, since, limit as nat));
    assert forall|i: int| 0 <= i < rows@.len() implies (#[trigger] rows@[i]).0 > since
        && log@.contains(rows@[i]) by {
        assert(rows@[i] == log@[from + i]);
    }
    assert forall|i: int, j: int| 0 <= i < j < rows@.len() implies (#[trigger] rows@[i]).0 < (
    #[trigger] rows@[j]).0 by {
        assert(rows@[i] == log@[from + i] && rows@[j] == log@[from + j]);
    }
    assert forall|k: int|
        0 <= k < log@.len() && (#[trigger] log@[k]).0 > since && !rows@.contains(
            log@[k],
        ) implies rows@.len() == limit && forall|i: int|
        0 <= i < rows@.len() ==> (#[trigger] rows@[i]).0 < log@[k].0 by {
        assert(k >= from);
        if k - from < rows@.len() {
            assert(rows@[k - from] == log@[k]);
        }
        assert forall|i: int| 0 <= i < rows@.len() implies (#[trigger] rows@[i]).0
            < log@[k].0 by {
            assert(rows@[i] == log@[from + i]);
        }
    }
}

/// A watcher is handed the same rows without their numbers, and the number of the last of them
/// to poll from next, or the number it came with where there are none.
pub proof fn law_watch_poll(
    log: &Vec<(u64, WatchEventRecord)>,
    since: u64,
    limit: usize,
    rows: Vec<(u64, WatchEventRecord)>,
    out: (Vec<WatchEventRecord>, u64),
)
    requires
        in_order(log@),
        call_ensures(poll_sync_events, (log, since, limit), rows),
        call_ensures(poll_watch_events, (log, since, limit), out),
    ensures
        out.0@.len() == rows@.len(),
        forall|i: int| 0 <= i < rows@.len() ==> (#[trigger] out.0@[i]) == rows@[i].1,
        rows@.len() == 0 ==> out.1 == since,
        rows@.len() > 0 ==> out.1 == rows@.last().0,
{
}

// ---------------------------------------------------------------------------
// Compaction
// ---------------------------------------------------------------------------

/// Compaction removes from the log exactly the listed rows numbered from one through the given
/// number, leaves every other row as it was, and changes no other table.
pub proof fn law_compaction(
    sequences: &Vec<u64>,
    up_to: u64,
    out: (Plan, u64),
    s: StoreView,
    n: u64,
)
    requires
        call_ensures(compact_wal_events, (sequences, up_to), out),
    ensures
        ({
            let after = out.0.effect(s);
            let key = crate::bytes::be(n as nat, 8);
            &&& after == (StoreView { events: after.events, ..s })
            &&& after.events.contains_key(key) <==> s.events.contains_key(key) && !(
            sequences@.contains(n) && 1 <= n <= up_to)
            &&& after.events.contains_key(key) ==> after.events[key] == s.events[key]
        }),
{
    let keys = compacted_keys(sequences@, up_to);
    assert(out.0.effect(s) == (StoreView { events: s.events.remove_keys(keys), ..s }));
    let key = event_key(n);
    if keys.contains(key) {
        let i = choose|i: int|
            #![trigger sequences@[i]]
            0 <= i < sequences@.len() && crate::storage::wal::compacted(sequences@[i], up_to) && key
                == event_key(sequences@[i]);
        crate::storage::wal::lemma_event_key_injective(n, sequences@[i]);
    }
    if sequences@.contains(n) && 1 <= n <= up_to {
        let i = choose|i: int| 0 <= i < sequences@.len() && sequences@[i] == n;
        assert(crate::storage::wal::compacted(sequences@[i], up_to));
        assert(keys.contains(key));
    }
}

/// Each further number adds one to the rows that compaction removes where it lies from one
/// through the given number, and nothing where it does not.
pub proof fn law_compaction_count(
    sequences: &Vec<u64>,
    fewer: &Vec<u64>,
    up_to: u64,
    out: (Plan, u64),
    out_fewer: (Plan, u64),
)
    requires
        call_ensures(compact_wal_events, (sequences, up_to), out),
        call_ensures(compact_wal_events, (fewer, up_to), out_fewer),
    ensures
        sequences@.len() == 0 ==> out.1 == 0,
        sequences@.len() > 0 && fewer@ == sequences@.drop_last() ==> out.1 == out_fewer.1
            + if 1 <= sequences@.last() <= up_to {
            1int
        } else {
            0int
        },
{
    assert(out.1 == compacted_count(sequences@, up_to));
    assert(out_fewer.1 == compacted_count(fewer@, up_to));
}

// ---------------------------------------------------------------------------
// Ordered reads
// ---------------------------------------------------------------------------

/// The newest experiences are read from the last entry backwards, as many as the limit allows
/// and there are; each is the experience, and has the moment, that its entry was made of.
pub proof fn law_recent_experiences(
    entries: &Vec<[u8; 24]>,
    limit: usize,
    recent: Vec<(ExperienceId, Timestamp)>,
    i: int,
    id: ExperienceId,
    moment: Timestamp,
)
    requires
        call_ensures(get_recent_experience_ids, (entries, limit), recent),
    ensures
        recent@.len() <= limit,
        recent@.len() <= entries@.len(),
        recent@.len() == limit || recent@.len() == entries@.len(),
        0 <= i < recent@.len() && entries@[entries@.len() - 1 - i]@ == moment.spec_bytes()
            + id.spec_bytes() ==> recent@[i] == (id, moment),
{
    if 0 <= i < recent@.len() && entries@[entries@.len() - 1 - i]@ == moment.spec_bytes()
        + id.spec_bytes() {
        crate::storage::experiences::law_recency_entry_round_trip(moment, id);
        assert(recency_entry(moment, id) == moment.spec_bytes() + id.spec_bytes());
    }
}

/// The experiences of a collective are listed in entry order, one for each entry, and each is
/// the experience that its entry was made of; a page of them is a run of that list from the
/// offset on, as long as the limit allows and the list goes.
pub proof fn law_listed_experiences(
    entries: &Vec<[u8; 24]>,
    limit: usize,
    offset: usize,
    ids: Vec<ExperienceId>,
    paged: Vec<ExperienceId>,
    i: int,
    id: ExperienceId,
    moment: Timestamp,
)
    requires
        call_ensures(list_experience_ids_in_collective, (entries,), ids),
        call_ensures(list_experience_ids_paginated, (entries, limit, offset), paged),
    ensures
        ids@.len() == entries@.len(),
        0 <= i < ids@.len() && entries@[i]@ == moment.spec_bytes() + id.spec_bytes() ==> ids@[i]
            == id,
        paged@.len() <= limit,
        offset >= entries@.len() ==> paged@.len() == 0,
        offset < entries@.len() ==> paged@.len() == limit || paged@.len() == entries@.len()
            - offset,
        0 <= i < paged@.len() ==> offset + i < ids@.len() && paged@[i] == ids@[offset + i],
{
    if 0 <= i < ids@.len() && entries@[i]@ == moment.spec_bytes() + id.spec_bytes() {
        crate::storage::experiences::law_recency_entry_round_trip(moment, id);
        assert(recency_entry(moment, id) == moment.spec_bytes() + id.spec_bytes());
    }
    assert(ids@ == entry_ids(entries@));
    assert(paged@ == page(ids@, limit as nat, offset as nat));
}

/// A page of insights is a run of the list from the offset on, as long as the limit allows and
/// the list goes; a limit of zero is taken for one.
pub proof fn law_listed_insights(
    listed: &Vec<InsightId>,
    limit: usize,
    offset: usize,
    paged: Vec<InsightId>,
    i: int,
)
    requires
        call_ensures(list_insight_ids_paginated, (listed, limit, offset), paged),
    ensures
        offset >= listed@.len() ==> paged@.len() == 0,
        ({
            let most = if limit == 0 {
                1
            } else {
                limit as int
            };
            &&& paged@.len() <= most
            &&& offset < listed@.len() ==> paged@.len() == most || paged@.len() == listed@.len()
                - offset
        }),
        0 <= i < paged@.len() ==> offset + i < listed@.len() && paged@[i] == listed@[offset + i],
{
}

/// A page of relations holds, in order, positions at or behind the offset where a record was
/// found, and no others; as many as the limit allows, where zero is taken for one. A record at
/// or behind the offset is on the page unless the limit was reached with earlier ones.
pub proof fn law_listed_relations(
    rows: &Vec<Option<ExperienceRelation>>,
    limit: usize,
    offset: usize,
    positions: Vec<usize>,
)
    requires
        call_ensures(
            list_relations_in_collective::<ExperienceRelation>,
            (rows, limit, offset),
            positions,
        ),
    ensures
        ({
            let most = if limit == 0 {
                1
            } else {
                limit as int
            };
            &&& positions@.len() <= most
            &&& forall|i: int|
                0 <= i < positions@.len() ==> {
                    &&& offset <= (#[trigger] positions@[i]) < rows@.len()
                    &&& rows@[positions@[i] as int] is Some
                }
            &&& forall|i: int, j: int|
                0 <= i < j < positions@.len() ==> (#[trigger] positions@[i]) < (
                #[trigger] positions@[j])
            &&& forall|k: usize|
                offset <= k < rows@.len() && (#[trigger] rows@[k as int]) is Some
                    && !positions@.contains(k) ==> positions@.len() == most && forall|i: int|
                    0 <= i < positions@.len() ==> (#[trigger] positions@[i]) < k
        }),
{
    let end = choose|end: int|
        {
            &&& 0 <= end <= rows@.len()
            &&& positions@ == #[trigger] crate::storage::listing::found_positions(
                rows@,
                offset as int,
                end,
            )
            &&& positions@.len() <= crate::storage::listing::at_least_one(limit)
            &&& end == rows@.len() || positions@.len() == crate::storage::listing::at_least_one(
                limit,
            )
        };
    assert(rows@.len() == rows.len());
    lemma_found(rows@, offset as int, end);
    assert forall|k: usize|
        offset <= k < rows@.len() && (#[trigger] rows@[k as int]) is Some && !positions@.contains(
            k,
        ) implies positions@.len() == crate::storage::listing::at_least_one(limit) && forall|i: int|
        0 <= i < positions@.len() ==> (#[trigger] positions@[i]) < k by {
        assert(k >= end);
    }
}

proof fn lemma_found<T>(rows: Seq<Option<T>>, from: int, to: int)
    requires
        0 <= from,
        0 <= to <= rows.len() <= usize::MAX,
    ensures
        ({
            let found = crate::storage::listing::found_positions(rows, from, to);
            &&& forall|i: int|
                0 <= i < found.len() ==> {
                    &&& from <= (#[trigger] found[i]) < to
                    &&& rows[found[i] as int] is Some
                }
            &&& forall|i: int, j: int|
                0 <= i < j < found.len() ==> (#[trigger] found[i]) < (#[trigger] found[j])
            &&& forall|k: usize|
                from <= k < to && (#[trigger] rows[k as int]) is Some ==> found.contains(k)
        }),
    decreases to - from,
{
    if to > from {
        lemma_found(rows, from, to - 1);
        let before = crate::storage::listing::found_positions(rows, from, to - 1);
        let found = crate::storage::listing::found_positions(rows, from, to);
        assert forall|k: usize| from <= k < to && (#[trigger] rows[k as int])
            is Some implies found.contains(k) by {
            if k < to - 1 {
                assert(before.contains(k));
                let i = choose|i: int| 0 <= i < before.len() && before[i] == k;
                assert(found[i] == k);
            } else {
                assert(found.last() == k);
            }
        }
    }
}

/// A row that is not there reads as no record, one that decodes as that record, and one that
/// does not as a failure; a whole table reads as all its records in order, or as the first
/// failure.
pub proof fn law_read_rows<T>(
    row: Option<Result<T, String>>,
    one: Result<Option<T>, StorageError>,
    rows: Vec<Result<T, String>>,
    all: Result<Vec<T>, StorageError>,
    i: int,
)
    requires
        call_ensures(read_row::<T>, (row,), one),
        call_ensures(read_rows::<T>, (rows,), all),
    ensures
        row is None ==> one is Ok && one->Ok_0 is None,
        row is Some && row->Some_0 is Ok ==> one is Ok && one->Ok_0 == Some(row->Some_0->Ok_0),
        row is Some && row->Some_0 is Err ==> one is Err && one->Err_0
            == StorageError::Serialization(row->Some_0->Err_0),
        all is Ok ==> all->Ok_0@.len() == rows@.len(),
        all is Ok && 0 <= i < rows@.len() ==> rows@[i] is Ok && all->Ok_0@[i] == rows@[i]->Ok_0,
        0 <= i < rows@.len() && rows@[i] is Err ==> all is Err,
{
    if all is Ok && 0 <= i < rows@.len() {
        let v = all->Ok_0;
        assert(v@[i] == v@[i]);
    }
}

// ---------------------------------------------------------------------------
// Cascades
// ---------------------------------------------------------------------------

/// Distinct relations are exactly those given, each once.
pub proof fn law_distinct_relations(ids: &Vec<RelationId>, out: Vec<RelationId>, r: RelationId)
    requires
        call_ensures(distinct_relations, (ids,), out),
    ensures
        out@.contains(r) <==> ids@.contains(r),
        forall|i: int, j: int| 0 <= i < j < out@.len() ==> out@[i] != out@[j],
{
    assert(out@.to_set() == ids@.to_set());
    assert(out@.to_set().contains(r) <==> out@.contains(r));
    assert(ids@.to_set().contains(r) <==> ids@.contains(r));
}

/// Deleting the experiences of a collective says how many there were, and removes exactly
/// those that its entries lead to, with their embeddings, every entry of the collective, every
/// key of the collective by kind and the relations found with them. Experiences of other
/// entries, entries and keys of other collectives and other relations stay, and so does every
/// other table.
pub proof fn law_deleted_collective_experiences(
    collective: CollectiveId,
    entries: &Vec<[u8; 24]>,
    related: &Vec<RelationId>,
    out: (Plan, u64),
    ids: Vec<ExperienceId>,
    s: StoreView,
    id: ExperienceId,
    c: CollectiveId,
    entry: Seq<u8>,
    r: RelationId,
)
    requires
        entries@.len() > 0,
        call_ensures(list_experience_ids_in_collective, (entries,), ids),
        call_ensures(delete_experiences_by_collective, (collective, entries, related), out),
    ensures
        ({
            let after = out.0.effect(s);
            &&& out.1 == entries@.len()
            &&& after.experiences.contains_key(id) <==> s.experiences.contains_key(id)
                && !ids@.contains(id)
            &&& after.experiences.contains_key(id) ==> after.experiences[id] == s.experiences[id]
            &&& after.embeddings.contains_key(id) <==> s.embeddings.contains_key(id)
                && !ids@.contains(id)
            &&& after.embeddings.contains_key(id) ==> after.embeddings[id] == s.embeddings[id]
            &&& after.by_collective.contains((c, entry)) <==> s.by_collective.contains((c, entry))
                && c != collective
            &&& after.relations.contains_key(r) <==> s.relations.contains_key(r)
                && !related@.contains(r)
            &&& after.relations.contains_key(r) ==> after.relations[r] == s.relations[r]
            &&& related@.len() > 0 ==> (after.by_source.contains((id, r)) <==> s.by_source.contains(
                (id, r),
            ) && !ids@.contains(id)) && (after.by_target.contains((id, r))
                <==> s.by_target.contains((id, r)) && !ids@.contains(id))
            &&& related@.len() == 0 ==> after.by_source == s.by_source && after.by_target
                == s.by_target
            &&& after == (StoreView {
                experiences: after.experiences,
                embeddings: after.embeddings,
                by_collective: after.by_collective,
                by_type: after.by_type,
                relations: after.relations,
                by_source: after.by_source,
                by_target: after.by_target,
                ..s
            })
        }),
{
    assert(out.0.effect(s) == crate::storage::cascade::without_collective_experiences(
        s,
        collective,
        entries@,
        related@,
    ));
    assert(ids@ == entry_ids(entries@));
    assert(ids@.to_set().contains(id) <==> ids@.contains(id));
    assert(related@.to_set().contains(r) <==> related@.contains(r));
}

/// Of the keys by kind, deleting the experiences of a collective clears those of that
/// collective for every kind there is, and no other.
pub proof fn law_deleted_collective_kinds(
    collective: CollectiveId,
    entries: &Vec<[u8; 24]>,
    related: &Vec<RelationId>,
    out: (Plan, u64),
    s: StoreView,
    other: CollectiveId,
    tag: crate::storage::schema::ExperienceTypeTag,
    id: ExperienceId,
)
    requires
        entries@.len() > 0,
        call_ensures(delete_experiences_by_collective, (collective, entries, related), out),
    ensures
        ({
            let key = other.spec_bytes().push(tag.byte());
            out.0.effect(s).by_type.contains((key, id)) <==> s.by_type.contains((key, id)) && other
                != collective
        }),
{
    assert(out.0.effect(s) == crate::storage::cascade::without_collective_experiences(
        s,
        collective,
        entries@,
        related@,
    ));
    let key = other.spec_bytes().push(tag.byte());
    assert(key == crate::storage::experiences::type_key(other, tag));
    if crate::storage::cascade::is_type_key_of(key, collective) {
        let t = choose|t: crate::storage::schema::ExperienceTypeTag|
            key == #[trigger] crate::storage::experiences::type_key(collective, t);
        crate::bytes::lemma_pow256_values();
        crate::bytes::lemma_be_len(other.value as nat, 16);
        crate::bytes::lemma_be_len(collective.value as nat, 16);
        assert(key.drop_last() =~= other.spec_bytes());
        assert(key.drop_last() =~= collective.spec_bytes());
        crate::bytes::lemma_be_round_trip(other.value as nat, 16);
        crate::bytes::lemma_be_round_trip(collective.value as nat, 16);
    }
}

/// Deleting the relations of an experience says how many different ones were listed. Where any
/// were, the given records are gone from their three tables; every other relation stays, and so
/// does every other table.
pub proof fn law_deleted_relations_of_experience(
    ids: &Vec<RelationId>,
    rows: &Vec<ExperienceRelation>,
    out: (Plan, u64),
    s: StoreView,
    id: RelationId,
    e: ExperienceId,
)
    requires
        call_ensures(delete_relations_for_experience, (ids, rows), out),
    ensures
        out.1 == ids@.to_set().len(),
        ids@.len() == 0 ==> out.0.effect(s) == s,
        ids@.len() > 0 ==> {
            let after = out.0.effect(s);
            let given = exists|i: int| 0 <= i < rows@.len() && (#[trigger] rows@[i]).id == id;
            let from = exists|i: int|
                0 <= i < rows@.len() && (#[trigger] rows@[i]).id == id && rows@[i].source_id == e;
            let to = exists|i: int|
                0 <= i < rows@.len() && (#[trigger] rows@[i]).id == id && rows@[i].target_id == e;
            &&& after.relations.contains_key(id) <==> s.relations.contains_key(id) && !given
            &&& after.relations.contains_key(id) ==> after.relations[id] == s.relations[id]
            &&& after.by_source.contains((e, id)) <==> s.by_source.contains((e, id)) && !from
            &&& after.by_target.contains((e, id)) <==> s.by_target.contains((e, id)) && !to
            &&& after == (StoreView {
                relations: after.relations,
                by_source: after.by_source,
                by_target: after.by_target,
                ..s
            })
        },
{
    if ids@.len() > 0 {
        assert(out.0.effect(s) == crate::storage::cascade::without_relations(s, rows@));
        let a = rows@.map_values(|r: ExperienceRelation| r.id);
        let b = rows@.map_values(|r: ExperienceRelation| (r.source_id, r.id));
        let c = rows@.map_values(|r: ExperienceRelation| (r.target_id, r.id));
        assert(a.to_set().contains(id) <==> a.contains(id));
        assert(b.to_set().contains((e, id)) <==> b.contains((e, id)));
        assert(c.to_set().contains((e, id)) <==> c.contains((e, id)));
        assert forall|i: int| 0 <= i < rows@.len() implies a[i] == (#[trigger] rows@[i]).id && b[i]
            == (rows@[i].source_id, rows@[i].id) && c[i] == (rows@[i].target_id, rows@[i].id) by {
        }
        if a.contains(id) {
            let i = choose|i: int| 0 <= i < a.len() && a[i] == id;
            assert(rows@[i].id == id);
        }
        if b.contains((e, id)) {
            let i = choose|i: int| 0 <= i < b.len() && b[i] == (e, id);
            assert(rows@[i].id == id && rows@[i].source_id == e);
        }
        if c.contains((e, id)) {
            let i = choose|i: int| 0 <= i < c.len() && c[i] == (e, id);
            assert(rows@[i].id == id && rows@[i].target_id == e);
        }
    }
}

/// Deleting the insights of a collective says how many there were, and removes exactly those
/// listed and every entry of the collective; other insights, entries and tables stay.
pub proof fn law_deleted_collective_insights(
    collective: CollectiveId,
    ids: &Vec<InsightId>,
    out: (Plan, u64),
    s: StoreView,
    id: InsightId,
    c: CollectiveId,
)
    requires
        call_ensures(delete_insights_by_collective, (collective, ids), out),
    ensures
        out.1 == ids@.len(),
        ids@.len() == 0 ==> out.0.effect(s) == s,
        ids@.len() > 0 ==> {
            let after = out.0.effect(s);
            &&& after.insights.contains_key(id) <==> s.insights.contains_key(id) && !ids@.contains(
                id,
            )
            &&& after.insights.contains_key(id) ==> after.insights[id] == s.insights[id]
            &&& after.insights_by_collective.contains((c, id))
                <==> s.insights_by_collective.contains((c, id)) && c != collective
            &&& after == (StoreView {
                insights: after.insights,
                insights_by_collective: after.insights_by_collective,
                ..s
            })
        },
{
    assert(out.0.effect(s) == crate::storage::cascade::without_collective_insights(
        s,
        collective,
        ids@,
    ));
    assert(ids@.to_set().contains(id) <==> ids@.contains(id));
}

} // verus!
