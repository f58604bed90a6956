//! Grow-only reinforcement counters: one bucket per store instance.

use vstd::prelude::*;
use std::collections::BTreeMap;

verus! {

/// The count `m` holds for `key`, zero where it holds none.
pub open spec fn bucket(m: Map<u128, u32>, key: u128) -> u32 {
    if m.contains_key(key) {
        m[key]
    } else {
        0
    }
}

/// The larger of two counts.
pub open spec fn larger(a: u32, b: u32) -> u32 {
    if b > a {
        b
    } else {
        a
    }
}

/// The merge of two counters: every bucket of either, at its larger count.
pub open spec fn merged(a: Map<u128, u32>, b: Map<u128, u32>) -> Map<u128, u32> {
    Map::new(
        |k: u128| a.contains_key(k) || b.contains_key(k),
        |k: u128| larger(bucket(a, k), bucket(b, k)),
    )
}

/// The sum of all buckets.
pub open spec fn total(m: Map<u128, u32>) -> nat
    decreases m.dom().len(),
    when m.dom().finite()
{
    if m.dom().len() == 0 {
        0
    } else {
        let k = m.dom().choose();
        (m[k] + total(m.remove(k))) as nat
    }
}

/// The counter after instance `key` reinforced once more.
pub open spec fn bumped(m: Map<u128, u32>, key: u128) -> Map<u128, u32> {
    m.insert(
        key,
        if bucket(m, key) == u32::MAX {
            u32::MAX
        } else {
            (bucket(m, key) + 1) as u32
        },
    )
}

pub proof fn lemma_keys_obey_order()
    ensures
        vstd::laws_cmp::obeys_cmp::<u128>(),
        vstd::std_specs::btree::key_obeys_cmp_spec::<u128>(),
{
    broadcast use vstd::std_specs::btree::group_btree_axioms;
    broadcast use vstd::laws_cmp::group_laws_cmp;
    assert(vstd::laws_cmp::obeys_cmp::<u128>());
}

/// Raises each bucket of `local` to its count in `incoming`, adding buckets it
/// lacks.
pub fn merge(local: &mut BTreeMap<u128, u32>, incoming: &BTreeMap<u128, u32>)
    ensures
        final(local)@ == merged(old(local)@, incoming@),
{
    proof {
        lemma_keys_obey_order();
    }
    let ghost before = local@;
    let entries = incoming.iter();
    let ghost pairs: Seq<(&u128, &u32)> = vstd::std_specs::iter::IteratorSpec::remaining(&entries);
    let ghost mut n: int = 0;
    let ghost done = |k: u128, n: int| exists|i: int| #![trigger pairs[i]] 0 <= i < n && *pairs[i].0 == k;
    for entry in it: entries
        invariant
            vstd::laws_cmp::obeys_cmp::<u128>(),
            it.seq() == pairs,
            n == it.index(),
            pairs.len() == incoming@.dom().len(),
            forall|i: int| #![trigger pairs[i]] 0 <= i < pairs.len() ==> incoming@.contains_key(
                *pairs[i].0,
            ) && incoming@[*pairs[i].0] == *pairs[i].1,
            done == (|k: u128, n: int| exists|i: int| #![trigger pairs[i]] 0 <= i < n && *pairs[i].0 == k),
            forall|k: u128| #[trigger] local@.contains_key(k) <==> before.contains_key(k) || done(k, n),
            forall|k: u128| #[trigger] local@.contains_key(k) ==> local@[k] == if done(k, n) {
                larger(bucket(before, k), bucket(incoming@, k))
            } else {
                before[k]
            },
    {
        let key: u128 = *entry.0;
        let count: u32 = *entry.1;
        let held: u32 = match local.get(&key) {
            Some(held) => *held,
            None => 0,
        };
        let raised: u32 = if count > held {
            count
        } else {
            held
        };
        local.insert(key, raised);
        proof {
            n = n + 1;
        }
    }
}

/// Counts one more reinforcement by instance `key`, saturating.
pub fn bump(local: &mut BTreeMap<u128, u32>, key: u128)
    ensures
        final(local)@ == bumped(old(local)@, key),
{
    proof {
        lemma_keys_obey_order();
    }
    let held: u32 = match local.get(&key) {
        Some(held) => *held,
        None => 0,
    };
    local.insert(key, held.saturating_add(1));
}

pub proof fn lemma_total_remove(m: Map<u128, u32>, k: u128)
    requires
        m.dom().finite(),
        m.contains_key(k),
    ensures
        total(m) == m[k] + total(m.remove(k)),
    decreases m.dom().len(),
{
    let c = m.dom().choose();
    if c != k {
        lemma_total_remove(m.remove(c), k);
        lemma_total_remove(m.remove(k), c);
        assert(m.remove(c).remove(k) =~= m.remove(k).remove(c));
    }
}

/// The sum of all buckets, saturating.
pub fn sum(counter: &BTreeMap<u128, u32>) -> (n: u32)
    ensures
        n as nat == if total(counter@) > u32::MAX {
            u32::MAX as nat
        } else {
            total(counter@)
        },
{
    proof {
        lemma_keys_obey_order();
    }
    let entries = counter.iter();
    let ghost pairs: Seq<(&u128, &u32)> = vstd::std_specs::iter::IteratorSpec::remaining(&entries);
    let ghost mut rest: Map<u128, u32> = counter@;
    let ghost mut n: int = 0;
    let mut sum: u32 = 0;
    for entry in it: entries
        invariant
            it.seq() == pairs,
            n == it.index(),
            pairs.no_duplicates(),
            rest.dom().finite(),
            forall|i: int| #![trigger pairs[i]] 0 <= i < pairs.len() ==> counter@.contains_key(
                *pairs[i].0,
            ) && counter@[*pairs[i].0] == *pairs[i].1,
            forall|k: u128| #[trigger]
                rest.contains_key(k) <==> counter@.contains_key(k) && !(exists|i: int|
                    #![trigger pairs[i]]
                    0 <= i < n && *pairs[i].0 == k),
            forall|k: u128| #[trigger] rest.contains_key(k) ==> rest[k] == counter@[k],
            sum == if total(counter@) - total(rest) > u32::MAX {
                u32::MAX as int
            } else {
                total(counter@) - total(rest)
            },
            total(rest) <= total(counter@),
    {
        proof {
            let k = *entry.0;
            if exists|i: int| #![trigger pairs[i]] 0 <= i < n && *pairs[i].0 == k {
                let i = choose|i: int| #![trigger pairs[i]] 0 <= i < n && *pairs[i].0 == k;
                assert(pairs[i] == pairs[n]);
            }
            lemma_total_remove(rest, k);
            rest = rest.remove(k);
            n = n + 1;
        }
        sum = sum.saturating_add(*entry.1);
    }
    proof {
        assert forall|k: u128| !rest.contains_key(k) by {
            if counter@.contains_key(k) {
                assert(pairs.contains((&k, &counter@[k])));
            }
        }
        assert(rest.dom() =~= Set::empty());
    }
    sum
}

/// Merging is commutative: both peers end with the same counter.
pub proof fn law_merge_commutative(a: Map<u128, u32>, b: Map<u128, u32>)
    ensures
        merged(a, b) == merged(b, a),
{
    assert(merged(a, b) =~= merged(b, a));
}

/// Merging is associative: the order in which peers' counters arrive is
/// immaterial.
pub proof fn law_merge_associative(a: Map<u128, u32>, b: Map<u128, u32>, c: Map<u128, u32>)
    ensures
        merged(merged(a, b), c) == merged(a, merged(b, c)),
{
    assert(merged(merged(a, b), c) =~= merged(a, merged(b, c)));
}

/// Merging the same counter again changes nothing.
pub proof fn law_merge_idempotent(a: Map<u128, u32>, b: Map<u128, u32>)
    ensures
        merged(a, a) == a,
        merged(merged(a, b), b) == merged(a, b),
{
    assert(merged(a, a) =~= a);
    assert(merged(merged(a, b), b) =~= merged(a, b));
}

/// No bucket ever shrinks, under a merge or a reinforcement, and none is lost.
pub proof fn law_buckets_only_grow(a: Map<u128, u32>, b: Map<u128, u32>, key: u128, k: u128)
    requires
        a.contains_key(k),
    ensures
        merged(a, b).contains_key(k),
        merged(a, b)[k] >= a[k],
        bumped(a, key).contains_key(k),
        bumped(a, key)[k] >= a[k],
{
}

/// A counter whose buckets are all at least another's has at least its sum.
pub proof fn lemma_total_monotonic(a: Map<u128, u32>, b: Map<u128, u32>)
    requires
        a.dom().finite(),
        b.dom().finite(),
        forall|k: u128| #[trigger] a.contains_key(k) ==> b.contains_key(k) && b[k] >= a[k],
    ensures
        total(a) <= total(b),
    decreases a.dom().len(),
{
    if a.dom().len() > 0 {
        let k = a.dom().choose();
        assert(a.contains_key(k));
        lemma_total_remove(b, k);
        lemma_total_monotonic(a.remove(k), b.remove(k));
    }
}

/// The application count of an experience never falls, under a merge or a
/// reinforcement.
pub proof fn law_total_only_grows(a: Map<u128, u32>, b: Map<u128, u32>, key: u128)
    requires
        a.dom().finite(),
        b.dom().finite(),
    ensures
        total(a) <= total(merged(a, b)),
        total(a) <= total(bumped(a, key)),
{
    assert(merged(a, b).dom() =~= a.dom().union(b.dom()));
    lemma_total_monotonic(a, merged(a, b));
    lemma_total_monotonic(a, bumped(a, key));
}

/// A reinforcement by an instance whose bucket is not full adds exactly one to
/// the application count.
pub proof fn law_reinforcement_adds_one(a: Map<u128, u32>, key: u128)
    requires
        a.dom().finite(),
        bucket(a, key) < u32::MAX,
    ensures
        total(bumped(a, key)) == total(a) + 1,
{
    lemma_total_remove(bumped(a, key), key);
    if a.contains_key(key) {
        lemma_total_remove(a, key);
        assert(bumped(a, key).remove(key) =~= a.remove(key));
    } else {
        assert(bumped(a, key).remove(key) =~= a);
    }
}

} // verus!
