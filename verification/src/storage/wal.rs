//! The watch-event log: numbering, recording, polling and compaction.

use vstd::prelude::*;

use crate::bytes::{from_be, to_be};
use crate::error::StorageError;
use crate::storage::schema::{EntityTypeTag, WatchEventRecord, WatchEventRecordV1, WatchEventTypeTag};
use crate::storage::store::{Plan, StoreOp, StoreView};
use crate::types::Timestamp;

verus! {

/// The key of sequence number `n` in the log.
pub open spec fn event_key(n: u64) -> Seq<u8> {
    crate::bytes::be(n as nat, 8)
}

/// The key of sequence number `n` in the log.
pub fn encode_event_key(n: u64) -> (key: [u8; 8])
    ensures
        key@ == event_key(n),
{
    proof {
        crate::bytes::lemma_pow256_values();
    }
    to_be::<8>(n as u128)
}

/// What the caller read before recording an event.
#[derive(Clone, Debug)]
pub struct WalContext {
    /// Whether a change from a peer is being applied, which is never recorded.
    pub applying: bool,
    /// Raw bytes of the stored sequence counter.
    pub stored: Option<Vec<u8>>,
}

impl WalContext {
    /// Whether the stored counter is absent or eight bytes long.
    pub open spec fn readable(self) -> bool {
        self.stored matches Some(bytes) ==> bytes@.len() == 8
    }

    /// The stored counter, zero where absent.
    pub open spec fn sequence(self) -> nat {
        match self.stored {
            Some(bytes) => crate::bytes::be_value(bytes@),
            None => 0,
        }
    }

    /// Whether recording does not run out of sequence numbers: nothing is numbered
    /// while a peer's change is applied or where the counter is unreadable.
    pub open spec fn has_room(self) -> bool {
        self.applying || !self.readable() || self.sequence() < u64::MAX
    }

    /// Whether recording succeeds.
    pub open spec fn records(self) -> bool {
        self.applying || self.readable()
    }

    /// The sequence number recording reports.
    pub open spec fn next(self) -> nat {
        if self.applying {
            0
        } else {
            self.sequence() + 1
        }
    }

    /// The store after `record` was recorded.
    pub open spec fn logged(self, s: StoreView, record: WatchEventRecord) -> StoreView {
        if self.applying {
            s
        } else {
            let key = event_key((self.sequence() + 1) as u64);
            StoreView {
                wal_sequence: Some(key),
                events: s.events.insert(key, record),
                ..s
            }
        }
    }
}

/// Whether `e` is the failure reported for a counter that is not eight bytes long.
pub open spec fn bad_counter(e: StorageError) -> bool {
    e matches StorageError::Corrupted(m) && m@ == "invalid wal_sequence bytes"@
}

/// The sequence number of the newest event: zero before the first.
pub fn get_wal_sequence(stored: &Option<Vec<u8>>) -> (sequence: Result<u64, StorageError>)
    ensures
        match (*stored, sequence) {
            (None, Ok(n)) => n == 0,
            (None, Err(_)) => false,
            (Some(bytes), Ok(n)) => bytes@.len() == 8 && n as nat == crate::bytes::be_value(bytes@),
            (Some(bytes), Err(e)) => bytes@.len() != 8 && bad_counter(e),
        },
{
    match stored {
        None => Ok(0),
        Some(bytes) => {
            if bytes.len() != 8 {
                return Err(StorageError::corrupted("invalid wal_sequence bytes"));
            }
            proof {
                crate::bytes::lemma_be_of_value(bytes@);
                crate::bytes::lemma_pow256_values();
            }
            Ok(from_be(bytes.as_slice()) as u64)
        },
    }
}

/// The event for a change of `entity_id`.
pub open spec fn event_record(
    entity_id: [u8; 16],
    collective: [u8; 16],
    entity_type: EntityTypeTag,
    event_type: WatchEventTypeTag,
    timestamp: Timestamp,
) -> WatchEventRecord {
    WatchEventRecord {
        entity_id,
        collective_id: collective,
        event_type,
        timestamp_ms: timestamp.millis,
        entity_type,
    }
}

/// Numbers a change and appends it to the log, inside the transaction that makes
/// the change. A change applied on behalf of a peer is not recorded, so it does
/// not echo back.
pub fn increment_wal_and_record(
    plan: &mut Plan,
    wal: &WalContext,
    entity_id: [u8; 16],
    collective: [u8; 16],
    entity_type: EntityTypeTag,
    event_type: WatchEventTypeTag,
    timestamp: Timestamp,
) -> (sequence: Result<u64, StorageError>)
    requires
        wal.has_room(),
    ensures
        sequence is Ok <==> wal.records(),
        sequence matches Ok(n) ==> n == wal.next(),
        sequence matches Err(e) ==> bad_counter(e),
        final(plan).ops@.len() == old(plan).ops@.len() + if wal.applying || !wal.readable() {
            0int
        } else {
            2int
        },
        forall|s: StoreView| #[trigger]
            final(plan).effect(s) == if wal.records() {
                wal.logged(
                    old(plan).effect(s),
                    event_record(entity_id, collective, entity_type, event_type, timestamp),
                )
            } else {
                old(plan).effect(s)
            },
{
    if wal.applying {
        return Ok(0);
    }
    match get_wal_sequence(&wal.stored) {
        Err(e) => Err(e),
        Ok(current) => {
            let next: u64 = current + 1;
            let key: [u8; 8] = encode_event_key(next);
            plan.push(StoreOp::SetWalSequence(key));
            let record = WatchEventRecord {
                entity_id,
                collective_id: collective,
                event_type,
                timestamp_ms: timestamp.as_millis(),
                entity_type,
            };
            plan.push(StoreOp::PutEvent(key, record));
            Ok(next)
        },
    }
}

/// The current form of a first-schema event, which was always about an
/// experience.
pub open spec fn upgraded_event(v1: WatchEventRecordV1) -> WatchEventRecord {
    WatchEventRecord {
        entity_id: v1.experience_id,
        collective_id: v1.collective_id,
        event_type: v1.event_type,
        timestamp_ms: v1.timestamp_ms,
        entity_type: EntityTypeTag::Experience,
    }
}

/// The current form of a first-schema event.
pub fn upgrade_event(v1: &WatchEventRecordV1) -> (v2: WatchEventRecord)
    ensures
        v2 == upgraded_event(*v1),
{
    WatchEventRecord {
        entity_id: v1.experience_id,
        collective_id: v1.collective_id,
        event_type: v1.event_type,
        timestamp_ms: v1.timestamp_ms,
        entity_type: EntityTypeTag::Experience,
    }
}

/// The log after the rows of a first-schema log were rewritten in current form.
pub open spec fn upgraded_log(
    events: Map<Seq<u8>, WatchEventRecord>,
    rows: Seq<([u8; 8], WatchEventRecordV1)>,
) -> Map<Seq<u8>, WatchEventRecord>
    decreases rows.len(),
{
    if rows.len() == 0 {
        events
    } else {
        upgraded_log(events, rows.drop_last()).insert(rows.last().0@, upgraded_event(rows.last().1))
    }
}

/// Rewrites every row of a first-schema log in current form, under its own key.
pub fn migrate_wal_v1_to_v2(rows: &Vec<([u8; 8], WatchEventRecordV1)>) -> (plan: Plan)
    ensures
        forall|s: StoreView| #[trigger]
            plan.effect(s) == (StoreView { events: upgraded_log(s.events, rows@), ..s }),
{
    let mut plan = Plan::new();
    let mut i: usize = 0;
    proof {
        assert(rows@.take(0) =~= Seq::empty());
    }
    while i < rows.len()
        invariant
            i <= rows@.len(),
            forall|s: StoreView| #[trigger]
                plan.effect(s) == (StoreView {
                    events: upgraded_log(s.events, rows@.take(i as int)),
                    ..s
                }),
        decreases rows@.len() - i,
    {
        proof {
            assert(rows@.take(i + 1).drop_last() =~= rows@.take(i as int));
        }
        let v2 = upgrade_event(&rows[i].1);
        plan.push(StoreOp::PutEvent(rows[i].0, v2));
        i = i + 1;
    }
    proof {
        assert(rows@.take(i as int) =~= rows@);
    }
    plan
}

/// Rewriting a first-schema log keeps every key and turns each row into its
/// current form.
pub proof fn law_upgraded_log(
    events: Map<Seq<u8>, WatchEventRecord>,
    rows: Seq<([u8; 8], WatchEventRecordV1)>,
    i: int,
)
    requires
        0 <= i < rows.len(),
        forall|a: int, b: int| 0 <= a < b < rows.len() ==> rows[a].0@ != rows[b].0@,
    ensures
        upgraded_log(events, rows).contains_key(rows[i].0@),
        upgraded_log(events, rows)[rows[i].0@] == upgraded_event(rows[i].1),
    decreases rows.len(),
{
    if i < rows.len() - 1 {
        law_upgraded_log(events, rows.drop_last(), i);
        assert(rows.drop_last()[i] == rows[i]);
    }
}

/// Whether log rows are in strictly increasing sequence order.
pub open spec fn in_order(log: Seq<(u64, WatchEventRecord)>) -> bool {
    forall|i: int, j: int| 0 <= i < j < log.len() ==> log[i].0 < log[j].0
}

/// The number of leading rows at or below sequence `since`.
pub open spec fn rows_through(log: Seq<(u64, WatchEventRecord)>, since: u64) -> nat
    decreases log.len(),
{
    if log.len() == 0 || log.last().0 <= since {
        log.len()
    } else {
        rows_through(log.drop_last(), since)
    }
}

/// The rows one poll hands out: those after `since`, oldest first, as many as
/// `limit` allows.
pub open spec fn polled(log: Seq<(u64, WatchEventRecord)>, since: u64, limit: nat) -> Seq<
    (u64, WatchEventRecord),
> {
    let rest = log.skip(rows_through(log, since) as int);
    rest.take(if rest.len() <= limit {
        rest.len() as int
    } else {
        limit as int
    })
}

/// The position a poll reports: the last sequence handed out, or `since`.
pub open spec fn polled_position(log: Seq<(u64, WatchEventRecord)>, since: u64, limit: nat) -> u64 {
    let rows = polled(log, since, limit);
    if rows.len() == 0 {
        since
    } else {
        rows.last().0
    }
}

pub proof fn lemma_rows_through(log: Seq<(u64, WatchEventRecord)>, since: u64, k: int)
    requires
        in_order(log),
        0 <= k <= log.len(),
        forall|i: int| #![trigger log[i]] 0 <= i < k ==> log[i].0 <= since,
        forall|i: int| #![trigger log[i]] k <= i < log.len() ==> log[i].0 > since,
    ensures
        rows_through(log, since) == k,
    decreases log.len(),
{
    if log.len() > 0 && log.last().0 > since {
        assert forall|i: int| #![trigger log.drop_last()[i]] 0 <= i < k implies log.drop_last()[i].0
            <= since by {
            assert(log[i].0 <= since);
        }
        assert forall|i: int|
            #![trigger log.drop_last()[i]]
            k <= i < log.drop_last().len() implies log.drop_last()[i].0 > since by {
            assert(log[i].0 > since);
        }
        lemma_rows_through(log.drop_last(), since, k);
    } else if log.len() > 0 {
        assert(log[log.len() - 1].0 <= since);
    }
}

pub proof fn lemma_rows_through_split(log: Seq<(u64, WatchEventRecord)>, since: u64)
    requires
        in_order(log),
    ensures
        rows_through(log, since) <= log.len(),
        forall|i: int|
            #![trigger log[i]]
            0 <= i < rows_through(log, since) ==> log[i].0 <= since,
        forall|i: int|
            #![trigger log[i]]
            rows_through(log, since) <= i < log.len() ==> log[i].0 > since,
    decreases log.len(),
{
    if log.len() > 0 && log.last().0 > since {
        let init = log.drop_last();
        lemma_rows_through_split(init, since);
        assert forall|i: int| #![trigger log[i]] 0 <= i < rows_through(log, since) implies log[i].0
            <= since by {
            assert(init[i] == log[i]);
        }
        assert forall|i: int|
            #![trigger log[i]]
            rows_through(log, since) <= i < log.len() implies log[i].0 > since by {
            if i < init.len() {
                assert(init[i] == log[i]);
            }
        }
    } else if log.len() > 0 {
        assert forall|i: int| #![trigger log[i]] 0 <= i < log.len() implies log[i].0 <= since by {
            if i < log.len() - 1 {
                assert(log[i].0 < log[log.len() - 1].0);
            }
        }
    }
}

/// Hands out the rows after `since`, with their sequence numbers.
pub fn poll_sync_events(log: &Vec<(u64, WatchEventRecord)>, since_seq: u64, limit: usize) -> (rows:
    Vec<(u64, WatchEventRecord)>)
    requires
        in_order(log@),
    ensures
        rows@ == polled(log@, since_seq, limit as nat),
{
    let mut i: usize = 0;
    while i < log.len() && log[i].0 <= since_seq
        invariant
            i <= log@.len(),
            forall|j: int| #![trigger log@[j]] 0 <= j < i ==> log@[j].0 <= since_seq,
        decreases log@.len() - i,
    {
        i = i + 1;
    }
    let ghost k: int = i as int;
    proof {
        assert forall|j: int| #![trigger log@[j]] k <= j < log@.len() implies log@[j].0
            > since_seq by {
            if j > k {
                assert(log@[k].0 < log@[j].0);
            }
        }
        lemma_rows_through(log@, since_seq, k);
    }
    let mut rows: Vec<(u64, WatchEventRecord)> = Vec::new();
    while i < log.len() && rows.len() < limit
        invariant
            0 <= k <= i <= log@.len(),
            rows@.len() == i - k,
            rows@.len() <= limit,
            rows@ =~= log@.subrange(k, i as int),
        decreases log@.len() - i,
    {
        rows.push(log[i]);
        i = i + 1;
    }
    assert(rows@ =~= polled(log@, since_seq, limit as nat));
    rows
}

/// Hands out the events after `since_seq`, and the position to poll from next.
pub fn poll_watch_events(log: &Vec<(u64, WatchEventRecord)>, since_seq: u64, limit: usize) -> (out: (
    Vec<WatchEventRecord>,
    u64,
))
    requires
        in_order(log@),
    ensures
        out.0@ == polled(log@, since_seq, limit as nat).map_values(
            |row: (u64, WatchEventRecord)| row.1,
        ),
        out.1 == polled_position(log@, since_seq, limit as nat),
{
    let rows = poll_sync_events(log, since_seq, limit);
    let mut events: Vec<WatchEventRecord> = Vec::new();
    let mut position: u64 = since_seq;
    let mut i: usize = 0;
    while i < rows.len()
        invariant
            i <= rows@.len(),
            events@ =~= rows@.take(i as int).map_values(|row: (u64, WatchEventRecord)| row.1),
            position == if i == 0 {
                since_seq
            } else {
                rows@[i - 1].0
            },
        decreases rows@.len() - i,
    {
        events.push(rows[i].1);
        position = rows[i].0;
        i = i + 1;
    }
    assert(rows@.take(i as int) =~= rows@);
    (events, position)
}

/// Polling on from the reported position continues exactly where the poll
/// stopped: no row is handed out twice and none is passed over.
pub proof fn law_poll_resumes(log: Seq<(u64, WatchEventRecord)>, since: u64, limit: nat)
    requires
        in_order(log),
    ensures
        ({
            let first = polled(log, since, limit);
            let next = polled_position(log, since, limit);
            &&& next >= since
            &&& log.skip(rows_through(log, since) as int) == first + log.skip(
                rows_through(log, next) as int,
            )
        }),
{
    let k = rows_through(log, since) as int;
    let first = polled(log, since, limit);
    let next = polled_position(log, since, limit);
    lemma_rows_through_split(log, since);
    let m = k + first.len();
    if first.len() > 0 {
        assert(first.last() == log[m - 1]);
        assert forall|i: int| #![trigger log[i]] 0 <= i < m implies log[i].0 <= next by {
            if i < m - 1 {
                assert(log[i].0 < log[m - 1].0);
            }
        }
        lemma_rows_through(log, next, m);
    }
    assert(rows_through(log, next) == m);
    assert(log.skip(k) =~= first + log.skip(m));
}

/// A poll that may hand out events and hands out none is caught up: no row lies after
/// its position.
pub proof fn law_empty_poll_is_caught_up(log: Seq<(u64, WatchEventRecord)>, since: u64, limit: nat)
    requires
        in_order(log),
        limit > 0,
        polled(log, since, limit).len() == 0,
    ensures
        forall|i: int| #![trigger log[i]] 0 <= i < log.len() ==> log[i].0 <= since,
{
    lemma_rows_through_split(log, since);
}

/// Whether compaction through `up_to` removes sequence number `n`.
pub open spec fn compacted(n: u64, up_to: u64) -> bool {
    1 <= n <= up_to
}

/// Keys of the log rows that compaction through `up_to` removes.
pub open spec fn compacted_keys(sequences: Seq<u64>, up_to: u64) -> Set<Seq<u8>> {
    Set::new(
        |key: Seq<u8>|
            exists|i: int|
                #![trigger sequences[i]]
                0 <= i < sequences.len() && compacted(sequences[i], up_to) && key == event_key(
                    sequences[i],
                ),
    )
}

/// How many of `sequences` compaction through `up_to` removes.
pub open spec fn compacted_count(sequences: Seq<u64>, up_to: u64) -> nat
    decreases sequences.len(),
{
    if sequences.len() == 0 {
        0
    } else {
        compacted_count(sequences.drop_last(), up_to) + if compacted(sequences.last(), up_to) {
            1nat
        } else {
            0nat
        }
    }
}

/// Removes from the log every listed row numbered from one through `up_to_seq`;
/// returns how many there were. `sequences` are the numbers present in the log.
pub fn compact_wal_events(sequences: &Vec<u64>, up_to_seq: u64) -> (out: (Plan, u64))
    ensures
        out.1 == compacted_count(sequences@, up_to_seq),
        out.1 == 0 ==> out.0.ops@.len() == 0,
        forall|s: StoreView| #[trigger]
            out.0.effect(s) == (StoreView {
                events: s.events.remove_keys(compacted_keys(sequences@, up_to_seq)),
                ..s
            }),
{
    let mut plan = Plan::new();
    let mut count: u64 = 0;
    let mut i: usize = 0;
    proof {
        assert forall|s: StoreView| #[trigger] plan.effect(s) == (StoreView {
            events: s.events.remove_keys(compacted_keys(sequences@.take(0), up_to_seq)),
            ..s
        }) by {
            assert(s.events.remove_keys(compacted_keys(sequences@.take(0), up_to_seq))
                =~= s.events);
        }
    }
    while i < sequences.len()
        invariant
            i <= sequences@.len(),
            count <= i,
            count == compacted_count(sequences@.take(i as int), up_to_seq),
            count == 0 ==> plan.ops@.len() == 0,
            forall|s: StoreView| #[trigger]
                plan.effect(s) == (StoreView {
                    events: s.events.remove_keys(
                        compacted_keys(sequences@.take(i as int), up_to_seq),
                    ),
                    ..s
                }),
        decreases sequences@.len() - i,
    {
        let n: u64 = sequences[i];
        let ghost seen = sequences@.take(i as int);
        let ghost next = sequences@.take(i + 1);
        proof {
            assert(next.drop_last() =~= seen);
            assert(next =~= seen.push(n));
        }
        let ghost before = plan;
        if n >= 1 && n <= up_to_seq {
            plan.push(StoreOp::RemoveEvent(encode_event_key(n)));
            count = count + 1;
        }
        proof {
            assert forall|key: Seq<u8>| #[trigger] compacted_keys(next, up_to_seq).contains(key)
                <==> (compacted_keys(seen, up_to_seq).contains(key) || (compacted(n, up_to_seq)
                && key == event_key(n))) by {
                if compacted_keys(seen, up_to_seq).contains(key) {
                    let j = choose|j: int|
                        #![trigger seen[j]]
                        0 <= j < seen.len() && compacted(seen[j], up_to_seq) && key == event_key(
                            seen[j],
                        );
                    assert(next[j] == seen[j]);
                }
                if compacted(n, up_to_seq) && key == event_key(n) {
                    assert(next[i as int] == n);
                }
                if compacted_keys(next, up_to_seq).contains(key) {
                    let j = choose|j: int|
                        #![trigger next[j]]
                        0 <= j < next.len() && compacted(next[j], up_to_seq) && key == event_key(
                            next[j],
                        );
                    if j < i {
                        assert(seen[j] == next[j]);
                    }
                }
            }
            assert forall|s: StoreView| #[trigger] plan.effect(s) == (StoreView {
                events: s.events.remove_keys(compacted_keys(next, up_to_seq)),
                ..s
            }) by {
                let old_events = s.events.remove_keys(compacted_keys(seen, up_to_seq));
                assert(before.effect(s) == (StoreView { events: old_events, ..s }));
                if compacted(n, up_to_seq) {
                    assert(old_events.remove(event_key(n)) =~= s.events.remove_keys(
                        compacted_keys(next, up_to_seq),
                    ));
                } else {
                    assert(old_events =~= s.events.remove_keys(compacted_keys(next, up_to_seq)));
                }
            }
        }
        i = i + 1;
    }
    proof {
        assert(sequences@.take(i as int) =~= sequences@);
    }
    (plan, count)
}

/// Compaction through `up_to` removes every listed row numbered one through
/// `up_to`, and touches no other row.
pub proof fn law_compaction_keeps_the_tail(
    events: Map<Seq<u8>, WatchEventRecord>,
    sequences: Seq<u64>,
    up_to: u64,
    n: u64,
)
    requires
        sequences.contains(n),
        events.contains_key(event_key(n)),
    ensures
        events.remove_keys(compacted_keys(sequences, up_to)).contains_key(event_key(n)) <==> !(1
            <= n <= up_to),
{
    let keys = compacted_keys(sequences, up_to);
    if 1 <= n <= up_to {
        let i = choose|i: int| 0 <= i < sequences.len() && sequences[i] == n;
        assert(compacted(sequences[i], up_to));
        assert(keys.contains(event_key(n)));
    } else if keys.contains(event_key(n)) {
        let i = choose|i: int|
            #![trigger sequences[i]]
            0 <= i < sequences.len() && compacted(sequences[i], up_to) && event_key(n)
                == event_key(sequences[i]);
        lemma_event_key_injective(n, sequences[i]);
    }
}

/// Distinct sequence numbers have distinct keys.
pub proof fn lemma_event_key_injective(a: u64, b: u64)
    requires
        event_key(a) == event_key(b),
    ensures
        a == b,
{
    crate::bytes::lemma_pow256_values();
    crate::bytes::lemma_be_round_trip(a as nat, 8);
    crate::bytes::lemma_be_round_trip(b as nat, 8);
}

/// Byte order of log keys is numeric order of sequence numbers.
pub proof fn law_event_key_order(a: u64, b: u64)
    ensures
        crate::bytes::lex_lt(event_key(a), event_key(b)) <==> a < b,
{
    crate::bytes::lemma_pow256_values();
    crate::bytes::lemma_be_len(a as nat, 8);
    crate::bytes::lemma_be_len(b as nat, 8);
    crate::bytes::lemma_be_round_trip(a as nat, 8);
    crate::bytes::lemma_be_round_trip(b as nat, 8);
    crate::bytes::lemma_be_value_order(event_key(a), event_key(b));
}

} // verus!
