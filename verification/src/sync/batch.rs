//! Runs of log events, and what they tell a peer.

use vstd::prelude::*;

use crate::sync::error::SyncError;
use crate::sync::types::SyncChange;
use crate::types::InstanceId;

verus! {

/// One event of a log, ready to be considered.
#[derive(Debug)]
pub struct LogCandidate {
    /// Its sequence.
    pub sequence: u64,
    /// What it tells the peer: nothing where it is filtered or its record is gone.
    pub change: Result<Option<SyncChange>, SyncError>,
    /// Encoded size of the change.
    pub item_len: usize,
}

/// The changes among `candidates`.
pub open spec fn kept(candidates: Seq<LogCandidate>) -> Seq<SyncChange>
    decreases candidates.len(),
{
    if candidates.len() == 0 {
        Seq::empty()
    } else {
        let before = kept(candidates.drop_last());
        match candidates.last().change {
            Ok(Some(change)) => before.push(change),
            _ => before,
        }
    }
}

/// Encoded size of the changes among `candidates`.
pub open spec fn kept_bytes(candidates: Seq<LogCandidate>) -> nat
    decreases candidates.len(),
{
    if candidates.len() == 0 {
        0
    } else {
        let before = kept_bytes(candidates.drop_last());
        match candidates.last().change {
            Ok(Some(_)) => before + candidates.last().item_len as nat,
            _ => before,
        }
    }
}

/// The last event `candidates` cover, from `prior` on.
pub open spec fn covered(candidates: Seq<LogCandidate>, prior: u64) -> u64 {
    if candidates.len() == 0 {
        prior
    } else {
        candidates.last().sequence
    }
}

pub proof fn lemma_take_next(candidates: Seq<LogCandidate>, k: int)
    requires
        0 <= k < candidates.len(),
    ensures
        candidates.take(k + 1).drop_last() == candidates.take(k),
        candidates.take(k + 1).last() == candidates[k],
{
    assert(candidates.take(k + 1).drop_last() =~= candidates.take(k));
}

pub proof fn lemma_kept_len(candidates: Seq<LogCandidate>)
    ensures
        kept(candidates).len() <= candidates.len(),
    decreases candidates.len(),
{
    if candidates.len() > 0 {
        lemma_kept_len(candidates.drop_last());
    }
}

/// Every change among the first `n` events is among what is sent of them: no change
/// is passed over.
pub proof fn law_covered_changes_are_sent(
    candidates: Seq<LogCandidate>,
    n: int,
    i: int,
    change: SyncChange,
)
    requires
        0 <= i < n <= candidates.len(),
        candidates[i].change == Ok::<Option<SyncChange>, SyncError>(Some(change)),
    ensures
        kept(candidates.take(n)).contains(change),
    decreases n,
{
    lemma_take_next(candidates, n - 1);
    let before = kept(candidates.take(n - 1));
    let after = kept(candidates.take(n));
    if i == n - 1 {
        assert(after.last() == change);
    } else {
        law_covered_changes_are_sent(candidates, n - 1, i, change);
        let j = choose|j: int| 0 <= j < before.len() && before[j] == change;
        assert(after[j] == change);
    }
}

/// Whether every change among the events is one that `source` made of its own event.
pub open spec fn authored(candidates: Seq<LogCandidate>, source: InstanceId) -> bool {
    forall|i: int|
        #![trigger candidates[i]]
        0 <= i < candidates.len() ==> (candidates[i].change matches Ok(Some(change)) ==> {
            &&& change.sequence == candidates[i].sequence
            &&& change.source_instance == source
        })
}

/// Whether changes are all of `source`, each behind the one before, the first behind
/// `from` and none beyond `through`.
pub open spec fn runs(
    changes: Seq<SyncChange>,
    source: InstanceId,
    from: u64,
    through: u64,
) -> bool {
    &&& forall|i: int|
        #![trigger changes[i]]
        0 <= i < changes.len() ==> {
            &&& changes[i].source_instance == source
            &&& from < changes[i].sequence <= through
        }
    &&& forall|i: int, j: int|
        #![trigger changes[i], changes[j]]
        0 <= i < j < changes.len() ==> changes[i].sequence < changes[j].sequence
}

/// What is sent of the first `k` events of a log runs from the position they were
/// read behind through the last of them.
pub proof fn law_sent_changes_run(
    candidates: Seq<LogCandidate>,
    k: int,
    source: InstanceId,
    from: u64,
)
    requires
        0 <= k <= candidates.len(),
        authored(candidates, source),
        crate::sync::server::ascending(candidates, from),
    ensures
        runs(kept(candidates.take(k)), source, from, covered(candidates.take(k), from)),
        covered(candidates.take(k), from) >= from,
    decreases k,
{
    if k == 0 {
        assert(candidates.take(0) =~= Seq::empty());
    } else {
        law_sent_changes_run(candidates, k - 1, source, from);
        lemma_take_next(candidates, k - 1);
        let before = kept(candidates.take(k - 1));
        let after = kept(candidates.take(k));
        let reached = covered(candidates.take(k - 1), from);
        let through = covered(candidates.take(k), from);
        assert(k > 1 ==> candidates.take(k - 1).last() == candidates[k - 2]);
        assert(reached < through);
        assert(forall|i: int| #![trigger after[i]] 0 <= i < before.len() ==> after[i] == before[i]);
        match candidates[k - 1].change {
            Ok(Some(change)) => {
                assert(after == before.push(change));
            },
            _ => {
                assert(after == before);
            },
        }
    }
}

/// Sequences are ordered as the sorted collections of std expect.
pub proof fn lemma_sequences_obey_order()
    ensures
        vstd::laws_cmp::obeys_cmp::<u64>(),
        vstd::std_specs::btree::key_obeys_cmp_spec::<u64>(),
{
    broadcast use vstd::std_specs::btree::group_btree_axioms;
    broadcast use vstd::laws_cmp::group_laws_cmp;

    assert(vstd::laws_cmp::obeys_cmp::<u64>());
}

} // verus!
