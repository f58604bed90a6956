//! Ordered reads over index entries: the newest experiences, and pages.

use vstd::prelude::*;

use crate::error::StorageError;
use crate::model::ExperienceRelation;
use crate::storage::experiences::{decode_entry_id, decode_entry_time, entry_id, entry_time};
use crate::types::{ExperienceId, InsightId, Timestamp};

verus! {

/// How many entries a read of at most `limit` out of `len` returns when it takes
/// them from the end.
pub open spec fn recent_len(len: nat, limit: nat) -> nat {
    if len <= limit {
        len
    } else {
        limit
    }
}

/// The newest experiences of a collective with their moments, newest first.
/// `entries` are the collective's entries in byte order.
pub fn get_recent_experience_ids(entries: &Vec<[u8; 24]>, limit: usize) -> (recent: Vec<
    (ExperienceId, Timestamp),
>)
    ensures
        recent@.len() == recent_len(entries@.len(), limit as nat),
        forall|i: int|
            #![trigger recent@[i]]
            0 <= i < recent@.len() ==> recent@[i] == (
                entry_id(entries@[entries@.len() - 1 - i]@),
                entry_time(entries@[entries@.len() - 1 - i]@),
            ),
{
    let total: usize = entries.len();
    let count: usize = if total <= limit {
        total
    } else {
        limit
    };
    let mut recent: Vec<(ExperienceId, Timestamp)> = Vec::new();
    let mut i: usize = 0;
    while i < count
        invariant
            i <= count <= total == entries@.len(),
            recent@.len() == i,
            forall|j: int|
                #![trigger recent@[j]]
                0 <= j < i ==> recent@[j] == (
                    entry_id(entries@[entries@.len() - 1 - j]@),
                    entry_time(entries@[entries@.len() - 1 - j]@),
                ),
        decreases count - i,
    {
        let entry: &[u8; 24] = &entries[total - 1 - i];
        recent.push((decode_entry_id(entry), decode_entry_time(entry)));
        i = i + 1;
    }
    recent
}

/// Whether entries are in byte order and of moments at or after the epoch.
pub open spec fn entries_sorted(entries: Seq<[u8; 24]>) -> bool {
    &&& forall|i: int, j: int|
        #![trigger entries[i], entries[j]]
        0 <= i < j < entries.len() ==> crate::bytes::lex_lt(entries[i]@, entries[j]@)
    &&& forall|i: int|
        #![trigger entries[i]]
        0 <= i < entries.len() ==> entry_time(entries[i]@).millis >= 0
}

/// Where entries are in byte order and no moment is before the epoch, a later
/// entry is never of an earlier moment: reading from the end is newest first.
pub proof fn law_recent_is_newest_first(entries: Seq<[u8; 24]>, i: int, j: int)
    requires
        entries_sorted(entries),
        0 <= i < j < entries.len(),
    ensures
        entry_time(entries[i]@).millis <= entry_time(entries[j]@).millis,
{
    let a = entries[i]@;
    let b = entries[j]@;
    let p = a.subrange(0, 8);
    let q = b.subrange(0, 8);
    crate::bytes::lemma_be_of_value(p);
    crate::bytes::lemma_be_of_value(q);
    crate::bytes::lemma_pow256_values();
    if crate::bytes::be_value(q) < crate::bytes::be_value(p) {
        crate::bytes::lemma_be_value_order(q, p);
        let k = choose|k: int|
            #![trigger q[k], p[k]]
            0 <= k < q.len() && k < p.len() && q[k] < p[k] && q.take(k) == p.take(k);
        assert(b[k] == q[k] && a[k] == p[k]);
        let m = choose|m: int|
            #![trigger a[m], b[m]]
            0 <= m < a.len() && m < b.len() && a[m] < b[m] && a.take(m) == b.take(m);
        if m < k {
            assert(q.take(k)[m] == p.take(k)[m]);
            assert(q[m] == p[m]);
            assert(a[m] == p[m] && b[m] == q[m]);
        } else if k < m {
            assert(a.take(m)[k] == b.take(m)[k]);
        }
        assert(false);
    }
}

/// The page of `items` that starts after `offset` entries: at most `limit` of them.
pub open spec fn page<T>(items: Seq<T>, limit: nat, offset: nat) -> Seq<T> {
    let rest = items.skip(if offset <= items.len() {
        offset as int
    } else {
        items.len() as int
    });
    rest.take(if rest.len() <= limit {
        rest.len() as int
    } else {
        limit as int
    })
}

/// The limit of a page that holds at least one entry wherever there is one left.
pub open spec fn at_least_one(limit: usize) -> nat {
    if limit == 0 {
        1
    } else {
        limit as nat
    }
}

/// A page of the experiences of a collective, oldest first.
pub fn list_experience_ids_paginated(entries: &Vec<[u8; 24]>, limit: usize, offset: usize) -> (ids:
    Vec<ExperienceId>)
    ensures
        ids@ == page(
            entries@.map_values(|entry: [u8; 24]| entry_id(entry@)),
            limit as nat,
            offset as nat,
        ),
{
    let mut i: usize = if offset <= entries.len() {
        offset
    } else {
        entries.len()
    };
    let ghost from: int = i as int;
    let ghost all = entries@.map_values(|entry: [u8; 24]| entry_id(entry@));
    let mut ids: Vec<ExperienceId> = Vec::new();
    while i < entries.len() && ids.len() < limit
        invariant
            all == entries@.map_values(|entry: [u8; 24]| entry_id(entry@)),
            0 <= from <= i <= entries@.len(),
            ids@.len() == i - from,
            ids@.len() <= limit,
            ids@ =~= all.subrange(from, i as int),
        decreases entries@.len() - i,
    {
        ids.push(decode_entry_id(&entries[i]));
        i = i + 1;
    }
    assert(ids@ =~= page(all, limit as nat, offset as nat));
    ids
}

/// A page of the insights of a collective. Even under a limit of zero it holds one, where
/// one is left.
pub fn list_insight_ids_paginated(listed: &Vec<InsightId>, limit: usize, offset: usize) -> (ids: Vec<
    InsightId,
>)
    ensures
        ids@ == page(listed@, at_least_one(limit), offset as nat),
{
    let most: usize = if limit == 0 {
        1
    } else {
        limit
    };
    let mut i: usize = if offset <= listed.len() {
        offset
    } else {
        listed.len()
    };
    let ghost from: int = i as int;
    let mut ids: Vec<InsightId> = Vec::new();
    while i < listed.len() && ids.len() < most
        invariant
            0 <= from <= i <= listed@.len(),
            ids@.len() == i - from,
            ids@.len() <= most,
            ids@ =~= listed@.subrange(from, i as int),
        decreases listed@.len() - i,
    {
        ids.push(listed[i]);
        i = i + 1;
    }
    assert(ids@ =~= page(listed@, at_least_one(limit), offset as nat));
    ids
}

/// Reading on after a page misses nothing and repeats nothing, and an empty page under a
/// positive limit means that nothing is left.
pub proof fn law_pages_partition<T>(items: Seq<T>, limit: nat, offset: nat)
    requires
        offset <= items.len(),
    ensures
        items.skip(offset as int) == page(items, limit, offset) + items.skip(
            (offset + page(items, limit, offset).len()) as int,
        ),
        limit > 0 && page(items, limit, offset).len() == 0 ==> offset == items.len(),
{
    let p = page(items, limit, offset);
    assert(items.skip(offset as int) =~= p + items.skip((offset + p.len()) as int));
}

/// Positions from `from` up to `to` at which a row was found.
pub open spec fn found_positions<T>(rows: Seq<Option<T>>, from: int, to: int) -> Seq<usize>
    decreases to - from,
{
    if to <= from {
        Seq::empty()
    } else if rows[to - 1] is Some {
        found_positions(rows, from, to - 1).push((to - 1) as usize)
    } else {
        found_positions(rows, from, to - 1)
    }
}

/// Positions of the relations on a page of a collective's relations. `rows` are the
/// records found for the collective's outgoing index entries, in index order and in
/// whatever form they are stored; the offset counts entries, found or not, and the limit
/// counts records. Even under a limit of zero a page holds one, where one is left.
pub fn list_relations_in_collective<T>(
    rows: &Vec<Option<T>>,
    limit: usize,
    offset: usize,
) -> (positions: Vec<usize>)
    ensures
        exists|end: int|
            {
                &&& 0 <= end <= rows@.len()
                &&& positions@ == #[trigger] found_positions(rows@, offset as int, end)
                &&& positions@.len() <= at_least_one(limit)
                &&& end == rows@.len() || positions@.len() == at_least_one(limit)
            },
{
    let most: usize = if limit == 0 {
        1
    } else {
        limit
    };
    let mut positions: Vec<usize> = Vec::new();
    let mut i: usize = if offset <= rows.len() {
        offset
    } else {
        rows.len()
    };
    assert(positions@ =~= found_positions(rows@, offset as int, i as int));
    while i < rows.len() && positions.len() < most
        invariant
            i <= rows@.len(),
            offset <= i || i == rows@.len(),
            positions@.len() <= most,
            positions@ == found_positions(rows@, offset as int, i as int),
        decreases rows@.len() - i,
    {
        if rows[i].is_some() {
            positions.push(i);
        }
        i = i + 1;
    }
    assert(positions@ == found_positions(rows@, offset as int, i as int));
    positions
}

// ---------------------------------------------------------------------------
// Decoded rows
// ---------------------------------------------------------------------------

/// A stored record, from what its row decoded to, or why it did not: a missing row is
/// no record, and an undecodable one is a failure.
pub fn read_row<T>(row: Option<Result<T, String>>) -> (record: Result<Option<T>, StorageError>)
    ensures
        record is Err <==> (row matches Some(r) && r is Err),
        row is None ==> record == Ok::<Option<T>, StorageError>(None),
        row matches Some(Ok(value)) ==> record == Ok::<Option<T>, StorageError>(Some(value)),
        row matches Some(Err(text)) ==> record == Err::<Option<T>, StorageError>(
            StorageError::Serialization(text),
        ),
{
    match row {
        None => Ok(None),
        Some(Ok(value)) => Ok(Some(value)),
        Some(Err(text)) => Err(StorageError::Serialization(text)),
    }
}

/// Whether `at` is the first row that did not decode.
pub open spec fn first_undecodable<T>(rows: Seq<Result<T, String>>, at: int) -> bool {
    &&& 0 <= at < rows.len()
    &&& rows[at] is Err
    &&& forall|i: int| 0 <= i < at ==> (#[trigger] rows[i]) is Ok
}

/// The records of a whole table, from what its rows decoded to: all of them in order,
/// or the first failure.
pub fn read_rows<T>(rows: Vec<Result<T, String>>) -> (records: Result<Vec<T>, StorageError>)
    ensures
        records is Ok <==> forall|i: int| 0 <= i < rows@.len() ==> (#[trigger] rows@[i]) is Ok,
        records matches Ok(v) ==> {
            &&& v@.len() == rows@.len()
            &&& forall|i: int|
                #![trigger v@[i]]
                0 <= i < v@.len() ==> rows@[i] == Ok::<T, String>(v@[i])
        },
        records matches Err(e) ==> exists|at: int|
            #![trigger first_undecodable(rows@, at)]
            first_undecodable(rows@, at) && (rows@[at] matches Err(text) && e
                == StorageError::Serialization(text)),
{
    let ghost all = rows@;
    let mut records: Vec<T> = Vec::new();
    for row in it: rows
        invariant
            it.seq() == all,
            records@.len() == it.index(),
            forall|i: int|
                #![trigger records@[i]]
                0 <= i < records@.len() ==> all[i] == Ok::<T, String>(records@[i]),
            forall|i: int| 0 <= i < it.index() ==> (#[trigger] all[i]) is Ok,
    {
        match row {
            Ok(value) => {
                records.push(value);
            },
            Err(text) => {
                assert(first_undecodable(all, it.index()));
                return Err(StorageError::Serialization(text));
            },
        }
    }
    Ok(records)
}

} // verus!
