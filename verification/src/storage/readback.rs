//! What reading gives back of what was written.

use vstd::prelude::*;

use crate::model::{Activity, DerivedInsight, Experience, ExperienceRelation};
use crate::storage::experiences::{
    is_joined, recency_entry, with_experience, without_experience,
};
use crate::storage::records::{activity_row_key, with_insight, with_relation};
use crate::storage::store::StoreView;
use crate::types::{CollectiveId, ExperienceId};

verus! {

/// An experience that was recorded reads back as it was, embedding included, from the
/// record and the embedding bytes stored for it.
pub proof fn law_saved_experience_reads_back(
    s: StoreView,
    e: Experience,
    bytes: Vec<u8>,
    x: Experience,
)
    requires
        bytes@ == with_experience(s, e).embeddings[e.id],
        is_joined(with_experience(s, e).experiences[e.id], Some(bytes), x),
    ensures
        x == (Experience { embedding: x.embedding, ..e }),
        x.embedding@ == e.embedding@,
{
    crate::storage::experiences::law_embedding_round_trip(e.embedding@, x.embedding@);
}

/// Recording an experience changes no other experience and no other embedding.
pub proof fn law_saving_one_experience_keeps_the_others(
    s: StoreView,
    e: Experience,
    other: ExperienceId,
)
    requires
        other != e.id,
    ensures
        ({
            let after = with_experience(s, e);
            &&& after.experiences.dom().contains(other) == s.experiences.dom().contains(other)
            &&& after.experiences[other] == s.experiences[other]
            &&& after.embeddings.dom().contains(other) == s.embeddings.dom().contains(other)
            &&& after.embeddings[other] == s.embeddings[other]
        }),
{
}

/// A recorded experience is listed under its collective, by an entry that leads back
/// to it at its moment.
pub proof fn law_saved_experience_is_listed(s: StoreView, e: Experience)
    ensures
        ({
            let entry = recency_entry(e.timestamp, e.id);
            &&& with_experience(s, e).by_collective.contains((e.collective_id, entry))
            &&& crate::storage::experiences::entry_id(entry) == e.id
            &&& crate::storage::experiences::entry_time(entry) == e.timestamp
        }),
{
    let entry = recency_entry(e.timestamp, e.id);
    let bits = crate::types::millis_bits(e.timestamp.millis);
    crate::bytes::lemma_pow256_values();
    crate::bytes::lemma_be_len(bits, 8);
    crate::bytes::lemma_be_len(e.id.value as nat, 16);
    crate::bytes::lemma_be_round_trip(bits, 8);
    crate::bytes::lemma_be_round_trip(e.id.value as nat, 16);
    assert(entry.subrange(0, 8) =~= e.timestamp.spec_bytes());
    assert(entry.subrange(8, 24) =~= e.id.spec_bytes());
}

/// A deleted experience is no longer found, and neither is its embedding.
pub proof fn law_deleted_experience_is_gone(s: StoreView, id: ExperienceId, e: Experience)
    ensures
        !without_experience(s, id, e).experiences.dom().contains(id),
        !without_experience(s, id, e).embeddings.dom().contains(id),
{
}

/// A stored relation reads back as it was, and is found from both its ends.
pub proof fn law_saved_relation_reads_back(s: StoreView, r: ExperienceRelation)
    ensures
        with_relation(s, r).relations[r.id] == r,
        with_relation(s, r).relations.dom().contains(r.id),
        with_relation(s, r).by_source.contains((r.source_id, r.id)),
        with_relation(s, r).by_target.contains((r.target_id, r.id)),
{
}

/// A stored insight reads back as it was, and is listed under its collective.
pub proof fn law_saved_insight_reads_back(s: StoreView, x: DerivedInsight)
    ensures
        with_insight(s, x).insights[x.id] == x,
        with_insight(s, x).insights.dom().contains(x.id),
        with_insight(s, x).insights_by_collective.contains((x.collective_id, x.id)),
{
}

/// Storing one agent's activity in a collective touches no other agent's, and none of
/// another collective.
pub proof fn law_activities_do_not_collide(
    s: StoreView,
    activity: Activity,
    collective: CollectiveId,
    agent: Seq<char>,
)
    requires
        collective != activity.collective_id || agent != activity.agent_id@,
    ensures
        activity_row_key(collective, agent) != activity_row_key(
            activity.collective_id,
            activity.agent_id@,
        ),
        s.activities.insert(
            activity_row_key(activity.collective_id, activity.agent_id@),
            activity,
        )[activity_row_key(collective, agent)] == s.activities[activity_row_key(
            collective,
            agent,
        )],
{
    let mine = vstd::utf8::encode_utf8(activity.agent_id@);
    let theirs = vstd::utf8::encode_utf8(agent);
    let own = activity.collective_id;
    crate::bytes::lemma_be_len(own.value as nat, 16);
    crate::bytes::lemma_be_len(collective.value as nat, 16);
    if activity_row_key(collective, agent) == activity_row_key(own, activity.agent_id@) {
        crate::storage::schema::law_activity_key_injective(
            collective.spec_bytes(),
            theirs,
            own.spec_bytes(),
            mine,
        );
        crate::bytes::lemma_pow256_values();
        crate::bytes::lemma_be_round_trip(own.value as nat, 16);
        crate::bytes::lemma_be_round_trip(collective.value as nat, 16);
        vstd::utf8::encode_utf8_decode_utf8(agent);
        vstd::utf8::encode_utf8_decode_utf8(activity.agent_id@);
    }
}

} // verus!
