//! Experience records and their indexes.

use vstd::prelude::*;
use std::collections::BTreeMap;

use crate::error::StorageError;
use crate::model::{Experience, ExperienceUpdate, ExperienceV2};
use crate::storage::schema::{
    array_at, concat_arrays, encode_type_index_key, EntityTypeTag, ExperienceTypeTag, WatchEventRecord,
    WatchEventTypeTag,
};
use crate::storage::store::{Plan, StoreOp, StoreView};
use crate::storage::wal::{increment_wal_and_record, WalContext};
use crate::types::{CollectiveId, ExperienceId, InstanceId, Timestamp};

verus! {

/// The sixteen-byte array with the given bytes.
pub open spec fn array16(bytes: Seq<u8>) -> [u8; 16] {
    choose|a: [u8; 16]| a@ == bytes
}

pub proof fn lemma_array16(a: [u8; 16])
    ensures
        array16(a@) == a,
{
    let b = array16(a@);
    assert(b@ == a@);
    assert(b =~= a);
}

// ---------------------------------------------------------------------------
// Embeddings
// ---------------------------------------------------------------------------

/// Little-endian bytes of a list of 32-bit patterns.
pub open spec fn embedding_bytes(bits: Seq<u32>) -> Seq<u8>
    decreases bits.len(),
{
    if bits.len() == 0 {
        Seq::empty()
    } else {
        embedding_bytes(bits.drop_last()) + crate::bytes::le(bits.last() as nat, 4)
    }
}

/// The 32-bit pattern at position `i` of little-endian bytes.
pub open spec fn bits_at(data: Seq<u8>, i: int) -> nat {
    data[4 * i] as nat + 0x100 * data[4 * i + 1] as nat + 0x1_0000 * data[4 * i + 2] as nat
        + 0x100_0000 * data[4 * i + 3] as nat
}

proof fn lemma_le4(x: nat)
    ensures
        crate::bytes::le(x, 4) == seq![
            (x % 256) as u8,
            (x / 256 % 256) as u8,
            (x / 256 / 256 % 256) as u8,
            (x / 256 / 256 / 256 % 256) as u8,
        ],
{
    reveal_with_fuel(crate::bytes::le, 5);
    assert(crate::bytes::le(x, 4) =~= seq![
        (x % 256) as u8,
        (x / 256 % 256) as u8,
        (x / 256 / 256 % 256) as u8,
        (x / 256 / 256 / 256 % 256) as u8,
    ]);
}

/// Embedding components, given as bit patterns, as little-endian bytes.
pub fn f32_slice_to_bytes(data: &[u32]) -> (bytes: Vec<u8>)
    ensures
        bytes@ == embedding_bytes(data@),
{
    let mut bytes: Vec<u8> = Vec::new();
    let mut i: usize = 0;
    proof {
        assert(data@.take(0) =~= Seq::empty());
    }
    while i < data.len()
        invariant
            i <= data@.len(),
            bytes@ == embedding_bytes(data@.take(i as int)),
        decreases data@.len() - i,
    {
        let x: u32 = data[i];
        let ghost before = bytes@;
        bytes.push((x % 256) as u8);
        bytes.push((x / 256 % 256) as u8);
        bytes.push((x / 256 / 256 % 256) as u8);
        bytes.push((x / 256 / 256 / 256 % 256) as u8);
        proof {
            lemma_le4(x as nat);
            let next = data@.take(i + 1);
            assert(next.drop_last() =~= data@.take(i as int));
            assert(bytes@ =~= before + crate::bytes::le(x as nat, 4));
        }
        i = i + 1;
    }
    proof {
        assert(data@.take(i as int) =~= data@);
    }
    bytes
}

/// Embedding components, as bit patterns, out of little-endian bytes. Up to three
/// bytes beyond the last whole component are ignored.
pub fn bytes_to_f32_vec(data: &[u8]) -> (bits: Vec<u32>)
    ensures
        bits@.len() == data@.len() / 4,
        forall|i: int| #![trigger bits@[i]] 0 <= i < bits@.len() ==> bits@[i] as nat == bits_at(
            data@,
            i,
        ),
{
    let mut bits: Vec<u32> = Vec::new();
    let n: usize = data.len() / 4;
    let mut i: usize = 0;
    let total: usize = data.len();
    while i < n
        invariant
            i <= n,
            n == total / 4,
            total == data@.len(),
            bits@.len() == i,
            forall|j: int| #![trigger bits@[j]] 0 <= j < i ==> bits@[j] as nat == bits_at(data@, j),
        decreases n - i,
    {
        let at: usize = 4 * i;
        let x: u32 = data[at] as u32 + 0x100 * data[at + 1] as u32 + 0x1_0000 * data[at
            + 2] as u32 + 0x100_0000 * data[at + 3] as u32;
        bits.push(x);
        i = i + 1;
    }
    bits
}

pub(crate) proof fn lemma_embedding_bytes(bits: Seq<u32>, i: int)
    requires
        0 <= i < bits.len(),
    ensures
        embedding_bytes(bits).len() == 4 * bits.len(),
        bits_at(embedding_bytes(bits), i) == bits[i],
    decreases bits.len(),
{
    let init = bits.drop_last();
    let x = bits.last() as nat;
    lemma_le4(x);
    if init.len() > 0 {
        lemma_embedding_bytes(init, if i < init.len() {
            i
        } else {
            0
        });
    } else {
        assert(embedding_bytes(init).len() == 0);
    }
    let whole = embedding_bytes(bits);
    let head = embedding_bytes(init);
    if i < init.len() {
        assert(whole[4 * i] == head[4 * i]);
        assert(whole[4 * i + 1] == head[4 * i + 1]);
        assert(whole[4 * i + 2] == head[4 * i + 2]);
        assert(whole[4 * i + 3] == head[4 * i + 3]);
        assert(init[i] == bits[i]);
    } else {
        let tail = crate::bytes::le(x, 4);
        assert(whole[4 * i] == tail[0]);
        assert(whole[4 * i + 1] == tail[1]);
        assert(whole[4 * i + 2] == tail[2]);
        assert(whole[4 * i + 3] == tail[3]);
    }
}

/// Decoding the bytes of an embedding gives back its components.
pub proof fn law_embedding_round_trip(bits: Seq<u32>, decoded: Seq<u32>)
    requires
        decoded.len() == embedding_bytes(bits).len() / 4,
        forall|i: int|
            #![trigger decoded[i]]
            0 <= i < decoded.len() ==> decoded[i] as nat == bits_at(embedding_bytes(bits), i),
    ensures
        decoded == bits,
{
    if bits.len() > 0 {
        lemma_embedding_bytes(bits, 0);
    }
    assert forall|i: int| 0 <= i < bits.len() implies decoded[i] == bits[i] by {
        lemma_embedding_bytes(bits, i);
    }
    assert(decoded =~= bits);
}

// ---------------------------------------------------------------------------
// Index entries
// ---------------------------------------------------------------------------

/// The by-collective entry of an experience: its moment, then its identifier.
pub open spec fn recency_entry(timestamp: Timestamp, id: ExperienceId) -> Seq<u8> {
    timestamp.spec_bytes() + id.spec_bytes()
}

/// The by-collective entry of an experience.
pub fn encode_recency_entry(timestamp: Timestamp, id: ExperienceId) -> (entry: [u8; 24])
    ensures
        entry@ == recency_entry(timestamp, id),
{
    concat_arrays::<8, 16, 24>(&timestamp.to_be_bytes(), &id.as_bytes())
}

/// The experience an entry leads to.
pub open spec fn entry_id(entry: Seq<u8>) -> ExperienceId {
    ExperienceId { value: crate::bytes::be_value(entry.subrange(8, 24)) as u128 }
}

/// The moment of an entry.
pub open spec fn entry_time(entry: Seq<u8>) -> Timestamp {
    Timestamp {
        millis: crate::types::bits_millis(crate::bytes::be_value(entry.subrange(0, 8))) as i64,
    }
}

/// The experience an entry leads to.
pub fn decode_entry_id(entry: &[u8; 24]) -> (id: ExperienceId)
    ensures
        id == entry_id(entry@),
{
    let bytes: [u8; 16] = array_at::<16>(entry.as_slice(), 8);
    ExperienceId::from_bytes(bytes)
}

/// The moment of an entry.
pub fn decode_entry_time(entry: &[u8; 24]) -> (timestamp: Timestamp)
    ensures
        timestamp == entry_time(entry@),
{
    let bytes: [u8; 8] = array_at::<8>(entry.as_slice(), 0);
    Timestamp::from_be_bytes(bytes)
}

/// An entry decodes to the experience and the moment it was built from.
pub proof fn law_recency_entry_round_trip(timestamp: Timestamp, id: ExperienceId)
    ensures
        entry_id(recency_entry(timestamp, id)) == id,
        entry_time(recency_entry(timestamp, id)) == timestamp,
        recency_entry(timestamp, id).len() == 24,
{
    let bits = crate::types::millis_bits(timestamp.millis);
    crate::bytes::lemma_pow256_values();
    crate::bytes::lemma_be_len(bits, 8);
    crate::bytes::lemma_be_len(id.value as nat, 16);
    crate::bytes::lemma_be_round_trip(bits, 8);
    crate::bytes::lemma_be_round_trip(id.value as nat, 16);
    let entry = recency_entry(timestamp, id);
    assert(entry.subrange(8, 24) =~= id.spec_bytes());
    assert(entry.subrange(0, 8) =~= timestamp.spec_bytes());
}

/// In byte order, an entry of an earlier moment at or after the epoch comes
/// before every entry of a later one.
pub proof fn law_entries_sort_by_time(a: Timestamp, x: ExperienceId, b: Timestamp, y: ExperienceId)
    requires
        0 <= a.millis < b.millis,
    ensures
        crate::bytes::lex_lt(recency_entry(a, x), recency_entry(b, y)),
{
    crate::types::law_timestamp_bytes_order(a, b);
    crate::bytes::lemma_be_len(crate::types::millis_bits(a.millis), 8);
    crate::bytes::lemma_be_len(crate::types::millis_bits(b.millis), 8);
    let p = a.spec_bytes();
    let q = b.spec_bytes();
    let k = choose|k: int|
        #![trigger p[k], q[k]]
        0 <= k < p.len() && k < q.len() && p[k] < q[k] && p.take(k) == q.take(k);
    let e = recency_entry(a, x);
    let f = recency_entry(b, y);
    assert(e[k] == p[k] && f[k] == q[k]);
    assert(e.take(k) =~= p.take(k));
    assert(f.take(k) =~= q.take(k));
}

// ---------------------------------------------------------------------------
// Mutations
// ---------------------------------------------------------------------------

/// The by-type key of an experience.
pub open spec fn type_key(collective: CollectiveId, tag: ExperienceTypeTag) -> Seq<u8> {
    collective.spec_bytes().push(tag.byte())
}

/// The event for a change of an experience.
pub open spec fn experience_event(
    id: ExperienceId,
    collective: CollectiveId,
    event_type: WatchEventTypeTag,
    timestamp: Timestamp,
) -> WatchEventRecord {
    crate::storage::wal::event_record(
        array16(id.spec_bytes()),
        array16(collective.spec_bytes()),
        EntityTypeTag::Experience,
        event_type,
        timestamp,
    )
}

/// The store with `e` in its four tables.
pub open spec fn with_experience(s: StoreView, e: Experience) -> StoreView {
    StoreView {
        experiences: s.experiences.insert(e.id, e),
        embeddings: s.embeddings.insert(e.id, embedding_bytes(e.embedding@)),
        by_collective: s.by_collective.insert((e.collective_id, recency_entry(e.timestamp, e.id))),
        by_type: s.by_type.insert((type_key(e.collective_id, e.experience_type.tag), e.id)),
        ..s
    }
}

/// The store without experience `id` in its four tables, where `e` is its record.
pub open spec fn without_experience(s: StoreView, id: ExperienceId, e: Experience) -> StoreView {
    StoreView {
        experiences: s.experiences.remove(id),
        embeddings: s.embeddings.remove(id),
        by_collective: s.by_collective.remove((e.collective_id, recency_entry(e.timestamp, id))),
        by_type: s.by_type.remove((type_key(e.collective_id, e.experience_type.tag), id)),
        ..s
    }
}

/// Appends the event for a change of an experience.
fn record_experience_event(
    plan: &mut Plan,
    wal: &WalContext,
    id: ExperienceId,
    collective: CollectiveId,
    event_type: WatchEventTypeTag,
    timestamp: Timestamp,
) -> (sequence: Result<u64, StorageError>)
    requires
        wal.has_room(),
    ensures
        sequence is Ok <==> wal.records(),
        sequence matches Ok(n) ==> n == wal.next(),
        sequence matches Err(e) ==> crate::storage::wal::bad_counter(e),
        forall|s: StoreView| #[trigger]
            final(plan).effect(s) == if wal.records() {
                wal.logged(
                    old(plan).effect(s),
                    experience_event(id, collective, event_type, timestamp),
                )
            } else {
                old(plan).effect(s)
            },
{
    let entity: [u8; 16] = id.as_bytes();
    let group: [u8; 16] = collective.as_bytes();
    proof {
        lemma_array16(entity);
        lemma_array16(group);
    }
    increment_wal_and_record(
        plan,
        wal,
        entity,
        group,
        EntityTypeTag::Experience,
        event_type,
        timestamp,
    )
}

/// Records an experience: its record, its embedding, both index entries and the
/// event, in one transaction.
pub fn save_experience(experience: Experience, wal: &WalContext) -> (plan: Result<
    Plan,
    StorageError,
>)
    requires
        wal.has_room(),
    ensures
        plan is Ok <==> wal.records(),
        plan matches Err(e) ==> crate::storage::wal::bad_counter(e),
        plan matches Ok(p) ==> forall|s: StoreView| #[trigger]
            p.effect(s) == wal.logged(
                with_experience(s, experience),
                experience_event(
                    experience.id,
                    experience.collective_id,
                    WatchEventTypeTag::Created,
                    experience.timestamp,
                ),
            ),
{
    let id = experience.id;
    let collective = experience.collective_id;
    let timestamp = experience.timestamp;
    let tag = experience.experience_type.type_tag();
    let embedding = f32_slice_to_bytes(experience.embedding.as_slice());
    let mut plan = Plan::new();
    plan.push(StoreOp::PutExperience(id, experience));
    plan.push(StoreOp::PutEmbedding(id, embedding));
    plan.push(StoreOp::LinkByCollective(collective, encode_recency_entry(timestamp, id)));
    plan.push(StoreOp::LinkByType(encode_type_index_key(&collective.as_bytes(), tag), id));
    match record_experience_event(
        &mut plan,
        wal,
        id,
        collective,
        WatchEventTypeTag::Created,
        timestamp,
    ) {
        Err(e) => Err(e),
        Ok(_) => Ok(plan),
    }
}

/// An experience with the present fields of `update` taken over.
pub open spec fn updated(e: Experience, update: ExperienceUpdate) -> Experience {
    Experience {
        importance: update.importance.unwrap_or(e.importance),
        confidence: update.confidence.unwrap_or(e.confidence),
        domain: update.domain.unwrap_or(e.domain),
        tags: update.tags.unwrap_or(e.tags),
        related_files: update.related_files.unwrap_or(e.related_files),
        archived: update.archived.unwrap_or(e.archived),
        ..e
    }
}

/// Takes over the present fields of `update`.
pub fn apply_update(experience: Experience, update: ExperienceUpdate) -> (e: Experience)
    ensures
        e == updated(experience, update),
{
    let mut e = experience;
    if let Some(importance) = update.importance {
        e.importance = importance;
    }
    if let Some(confidence) = update.confidence {
        e.confidence = confidence;
    }
    if let Some(domain) = update.domain {
        e.domain = domain;
    }
    if let Some(tags) = update.tags {
        e.tags = tags;
    }
    if let Some(related_files) = update.related_files {
        e.related_files = related_files;
    }
    if let Some(archived) = update.archived {
        e.archived = archived;
    }
    e
}

/// The event an update is recorded as: setting the archived flag is archiving.
pub open spec fn update_event(update: ExperienceUpdate) -> WatchEventTypeTag {
    if update.archived == Some(true) {
        WatchEventTypeTag::Archived
    } else {
        WatchEventTypeTag::Updated
    }
}

/// Updates the experience record found under `id` and records the event. Nothing is
/// written for an experience that is not there.
pub fn update_experience(
    id: ExperienceId,
    found: Option<Experience>,
    update: ExperienceUpdate,
    wal: &WalContext,
) -> (plan: Result<Option<Plan>, StorageError>)
    requires
        wal.has_room(),
    ensures
        plan is Err <==> found is Some && !wal.records(),
        plan matches Err(e) ==> crate::storage::wal::bad_counter(e),
        plan matches Ok(p) ==> (p is Some <==> found is Some),
        found matches Some(e) ==> (plan matches Ok(Some(p)) ==> forall|s: StoreView| #[trigger]
            p.effect(s) == wal.logged(
                StoreView { experiences: s.experiences.insert(id, updated(e, update)), ..s },
                experience_event(id, e.collective_id, update_event(update), e.timestamp),
            )),
{
    match found {
        None => Ok(None),
        Some(experience) => {
            let collective = experience.collective_id;
            let timestamp = experience.timestamp;
            let event_type = match update.archived {
                Some(true) => WatchEventTypeTag::Archived,
                _ => WatchEventTypeTag::Updated,
            };
            let e = apply_update(experience, update);
            let mut plan = Plan::new();
            plan.push(StoreOp::PutExperience(id, e));
            match record_experience_event(&mut plan, wal, id, collective, event_type, timestamp) {
                Err(e) => Err(e),
                Ok(_) => Ok(Some(plan)),
            }
        },
    }
}

/// Whether `after` is `before` with a peer's counter and reinforcement time
/// merged in: larger counts and the later time win, all else stays.
pub open spec fn is_counter_merge(
    before: Experience,
    applications: Map<u128, u32>,
    last_reinforced: Option<Timestamp>,
    after: Experience,
) -> bool {
    &&& after.applications@ == crate::gcounter::merged(before.applications@, applications)
    &&& after.last_reinforced.millis == match last_reinforced {
        Some(t) => if t.millis > before.last_reinforced.millis {
            t.millis
        } else {
            before.last_reinforced.millis
        },
        None => before.last_reinforced.millis,
    }
    &&& after == (Experience {
        applications: after.applications,
        last_reinforced: after.last_reinforced,
        ..before
    })
}

/// Merges a peer's counter and reinforcement time into an experience.
pub fn merge_counters(
    experience: Experience,
    applications: &BTreeMap<u128, u32>,
    last_reinforced: Option<Timestamp>,
) -> (after: Experience)
    ensures
        is_counter_merge(experience, applications@, last_reinforced, after),
{
    let mut e = experience;
    crate::gcounter::merge(&mut e.applications, applications);
    if let Some(incoming) = last_reinforced {
        e.last_reinforced = e.last_reinforced.max(incoming);
    }
    e
}

/// Merges a peer's counter into the experience record found under `id`. No event is
/// recorded. Nothing is written for an experience that is not there.
pub fn merge_experience_applications(
    id: ExperienceId,
    found: Option<Experience>,
    applications: &BTreeMap<u128, u32>,
    last_reinforced: Option<Timestamp>,
) -> (plan: Option<Plan>)
    ensures
        plan is Some <==> found is Some,
        found matches Some(e) ==> (plan matches Some(p) ==> p.ops@.len() == 1 && (
        p.ops@[0] matches StoreOp::PutExperience(key, after) && key == id && is_counter_merge(
            e,
            applications@,
            last_reinforced,
            after,
        ))),
{
    match found {
        None => None,
        Some(experience) => {
            let mut plan = Plan::new();
            let after = merge_counters(experience, applications, last_reinforced);
            plan.push(StoreOp::PutExperience(id, after));
            Some(plan)
        },
    }
}

/// Removes an experience from its four tables and records the event. Nothing is
/// written for an experience that is not there.
pub fn delete_experience(id: ExperienceId, found: &Option<Experience>, wal: &WalContext) -> (plan:
    Result<Option<Plan>, StorageError>)
    requires
        wal.has_room(),
    ensures
        plan is Err <==> found is Some && !wal.records(),
        plan matches Err(e) ==> crate::storage::wal::bad_counter(e),
        plan matches Ok(p) ==> (p is Some <==> found is Some),
        *found matches Some(e) ==> (plan matches Ok(Some(p)) ==> forall|s: StoreView| #[trigger]
            p.effect(s) == wal.logged(
                without_experience(s, id, e),
                experience_event(
                    id,
                    e.collective_id,
                    WatchEventTypeTag::Deleted,
                    e.timestamp,
                ),
            )),
{
    match found {
        None => Ok(None),
        Some(e) => {
            let collective = e.collective_id;
            let timestamp = e.timestamp;
            let tag = e.experience_type.type_tag();
            let mut plan = Plan::new();
            plan.push(StoreOp::RemoveExperience(id));
            plan.push(StoreOp::RemoveEmbedding(id));
            plan.push(StoreOp::UnlinkByCollective(collective, encode_recency_entry(timestamp, id)));
            plan.push(
                StoreOp::UnlinkByType(encode_type_index_key(&collective.as_bytes(), tag), id),
            );
            match record_experience_event(
                &mut plan,
                wal,
                id,
                collective,
                WatchEventTypeTag::Deleted,
                timestamp,
            ) {
                Err(e) => Err(e),
                Ok(_) => Ok(Some(plan)),
            }
        },
    }
}

/// Whether `after` is `before` reinforced once by `own` at `now`.
pub open spec fn is_reinforcement(
    before: Experience,
    own: InstanceId,
    now: Timestamp,
    after: Experience,
) -> bool {
    &&& after.applications@ == crate::gcounter::bumped(before.applications@, own.value)
    &&& after == (Experience {
        applications: after.applications,
        last_reinforced: now,
        ..before
    })
}

/// Counts one reinforcement of the experience found under `id` in this instance's own
/// bucket and records the event; returns the new application count over all
/// instances. Nothing is written for an experience that is not there.
pub fn reinforce_experience(
    id: ExperienceId,
    found: Option<Experience>,
    own: InstanceId,
    now: Timestamp,
    wal: &WalContext,
) -> (out: Result<Option<(Plan, u32)>, StorageError>)
    requires
        wal.has_room(),
    ensures
        out is Err <==> found is Some && !wal.records(),
        out matches Err(e) ==> crate::storage::wal::bad_counter(e),
        out matches Ok(r) ==> (r is Some <==> found is Some),
        found matches Some(e) ==> (out matches Ok(Some(r)) ==> exists|after: Experience|
            {
                &&& is_reinforcement(e, own, now, after)
                &&& r.1 as nat == if crate::gcounter::total(after.applications@) > u32::MAX {
                    u32::MAX as nat
                } else {
                    crate::gcounter::total(after.applications@)
                }
                &&& forall|s: StoreView| #[trigger]
                    r.0.effect(s) == wal.logged(
                        StoreView { experiences: s.experiences.insert(id, after), ..s },
                        experience_event(
                            id,
                            e.collective_id,
                            WatchEventTypeTag::Updated,
                            e.timestamp,
                        ),
                    )
            }),
{
    match found {
        None => Ok(None),
        Some(experience) => {
            let ghost before = experience;
            let mut e = experience;
            crate::gcounter::bump(&mut e.applications, own.value);
            e.last_reinforced = now;
            let count: u32 = e.applications();
            let collective = e.collective_id;
            let timestamp = e.timestamp;
            let ghost after = e;
            let mut plan = Plan::new();
            plan.push(StoreOp::PutExperience(id, e));
            match record_experience_event(
                &mut plan,
                wal,
                id,
                collective,
                WatchEventTypeTag::Updated,
                timestamp,
            ) {
                Err(e) => Err(e),
                Ok(_) => {
                    assert(is_reinforcement(before, own, now, after));
                    Ok(Some((plan, count)))
                },
            }
        },
    }
}

/// Stores an embedding beside its experience.
pub fn save_embedding(id: ExperienceId, embedding: &[u32]) -> (plan: Plan)
    ensures
        forall|s: StoreView| #[trigger]
            plan.effect(s) == (StoreView {
                embeddings: s.embeddings.insert(id, embedding_bytes(embedding@)),
                ..s
            }),
{
    let mut plan = Plan::new();
    plan.push(StoreOp::PutEmbedding(id, f32_slice_to_bytes(embedding)));
    plan
}

/// Whether `x` is the experience of a record and of the embedding bytes stored beside
/// it.
pub open spec fn is_joined(r: Experience, embedding: Option<Vec<u8>>, x: Experience) -> bool {
    &&& x == (Experience { embedding: x.embedding, ..r })
    &&& embedding is None ==> x.embedding == r.embedding
    &&& embedding matches Some(bytes) ==> {
        &&& x.embedding@.len() == bytes@.len() / 4
        &&& forall|i: int|
            #![trigger x.embedding@[i]]
            0 <= i < x.embedding@.len() ==> x.embedding@[i] as nat == bits_at(bytes@, i)
    }
}

/// An experience with the embedding that is stored beside it, where there is one.
pub fn get_experience(record: Option<Experience>, embedding: &Option<Vec<u8>>) -> (e: Option<
    Experience,
>)
    ensures
        match record {
            Some(r) => e matches Some(x) && is_joined(r, *embedding, x),
            None => e is None,
        },
{
    match record {
        None => None,
        Some(r) => {
            let mut x = r;
            if let Some(bytes) = embedding {
                x.embedding = bytes_to_f32_vec(bytes.as_slice());
            }
            Some(x)
        },
    }
}

/// The bucket that reinforcements of unknown instances are counted in: the bytes
/// spell `PULSEDB_LEGACY__`.
pub fn legacy_applications_instance_id() -> (id: InstanceId)
    ensures
        id.spec_bytes() == seq![
            0x50u8, 0x55, 0x4C, 0x53, 0x45, 0x44, 0x42, 0x5F, 0x4C, 0x45, 0x47, 0x41, 0x43, 0x59, 0x5F,
            0x5F,
        ],
{
    let bytes: [u8; 16] = [
        0x50u8, 0x55, 0x4C, 0x53, 0x45, 0x44, 0x42, 0x5F, 0x4C, 0x45, 0x47, 0x41, 0x43, 0x59, 0x5F,
        0x5F,
    ];
    let id = InstanceId::from_bytes(bytes);
    assert(id.spec_bytes() =~= seq![
        0x50u8, 0x55, 0x4C, 0x53, 0x45, 0x44, 0x42, 0x5F, 0x4C, 0x45, 0x47, 0x41, 0x43, 0x59, 0x5F,
        0x5F,
    ]);
    id
}

/// Whether `id` is the bucket of unknown instances.
pub open spec fn is_legacy_bucket(id: u128) -> bool {
    crate::bytes::be(id as nat, 16) == seq![
        0x50u8, 0x55, 0x4C, 0x53, 0x45, 0x44, 0x42, 0x5F, 0x4C, 0x45, 0x47, 0x41, 0x43, 0x59, 0x5F,
        0x5F,
    ]
}

/// Whether `v3` is the current form of `v2`: the scalar count sits in the bucket
/// of unknown instances, the reinforcement time is the recording time, and all
/// else carries over.
pub open spec fn is_reshaped(v2: ExperienceV2, v3: Experience) -> bool {
    &&& exists|legacy: u128| #[trigger]
        is_legacy_bucket(legacy) && v3.applications@ == map![legacy => v2.applications]
    &&& v3.tags@.len() == 0
    &&& v3 == (Experience {
        id: v2.id,
        collective_id: v2.collective_id,
        content: v2.content,
        embedding: v2.embedding,
        experience_type: v2.experience_type,
        importance: v2.importance,
        confidence: v2.confidence,
        applications: v3.applications,
        domain: v2.domain,
        tags: v3.tags,
        related_files: v2.related_files,
        source_agent: v2.source_agent,
        source_task: v2.source_task,
        timestamp: v2.timestamp,
        last_reinforced: v2.timestamp,
        archived: v2.archived,
    })
}

/// The current form of a second-schema experience.
pub fn reshape_experience(v2: ExperienceV2) -> (v3: Experience)
    ensures
        is_reshaped(v2, v3),
{
    let mut applications: BTreeMap<u128, u32> = BTreeMap::new();
    let legacy = legacy_applications_instance_id();
    proof {
        crate::gcounter::lemma_keys_obey_order();
    }
    applications.insert(legacy.value, v2.applications);
    proof {
        assert(is_legacy_bucket(legacy.value));
        assert(applications@ =~= map![legacy.value => v2.applications]);
    }
    Experience {
        id: v2.id,
        collective_id: v2.collective_id,
        content: v2.content,
        embedding: v2.embedding,
        experience_type: v2.experience_type,
        importance: v2.importance,
        confidence: v2.confidence,
        applications,
        domain: v2.domain,
        tags: Vec::new(),
        related_files: v2.related_files,
        source_agent: v2.source_agent,
        source_task: v2.source_task,
        timestamp: v2.timestamp,
        last_reinforced: v2.timestamp,
        archived: v2.archived,
    }
}

} // verus!
