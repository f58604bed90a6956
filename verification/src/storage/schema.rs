//! Table layout, key encodings and the records that hold raw bytes.

use vstd::prelude::*;
use vstd::string::StringSliceAdditionalSpecFns;

use crate::bytes::{from_be, to_be};
use crate::types::{EmbeddingDimension, Timestamp};

verus! {

/// Version of the logical schema this build writes.
pub const SCHEMA_VERSION: u32 = 2;

/// Largest experience content, in bytes.
pub const MAX_CONTENT_SIZE: usize = 100 * 1024;

/// Most domain tags on one experience.
pub const MAX_DOMAIN_TAGS: usize = 50;

/// Longest domain tag, in bytes.
pub const MAX_TAG_LENGTH: usize = 100;

/// Most source files on one experience.
pub const MAX_SOURCE_FILES: usize = 100;

/// Longest source file path, in bytes.
pub const MAX_FILE_PATH_LENGTH: usize = 500;

/// Longest source agent name, in bytes.
pub const MAX_SOURCE_AGENT_LENGTH: usize = 256;

/// Largest relation metadata, in bytes.
pub const MAX_RELATION_METADATA_SIZE: usize = 10 * 1024;

/// Largest insight content, in bytes.
pub const MAX_INSIGHT_CONTENT_SIZE: usize = 50 * 1024;

/// Most source experiences of one insight.
pub const MAX_INSIGHT_SOURCES: usize = 100;

/// Longest agent identifier of an activity, in bytes.
pub const MAX_ACTIVITY_AGENT_ID_LENGTH: usize = 255;

/// Largest free-text field of an activity, in bytes.
pub const MAX_ACTIVITY_FIELD_SIZE: usize = 1024;

/// Value of the substrate-format marker this build writes.
pub const CURRENT_SUBSTRATE_FORMAT: u8 = 2;

/// Substrate format of a store that carries no marker.
pub const LEGACY_SUBSTRATE_FORMAT: u8 = 0;

/// Length of the substrate-format marker, in bytes.
pub const SUBSTRATE_MARKER_LEN: usize = 3;

/// First magic byte of the substrate-format marker, `P`.
pub const SUBSTRATE_MAGIC_0: u8 = 0x50;

/// Second magic byte of the substrate-format marker, `S`.
pub const SUBSTRATE_MAGIC_1: u8 = 0x53;

/// Kind of change a watch event records.
#[derive(Clone, Copy, Debug, PartialEq, Eq, Hash, Structural)]
pub enum WatchEventTypeTag {
    /// A new entity was recorded.
    Created,
    /// An existing entity was modified or reinforced.
    Updated,
    /// An experience was soft-deleted.
    Archived,
    /// An entity was permanently deleted.
    Deleted,
}

impl WatchEventTypeTag {
    /// The byte that stands for the variant on disk.
    pub open spec fn byte(self) -> u8 {
        match self {
            WatchEventTypeTag::Created => 0,
            WatchEventTypeTag::Updated => 1,
            WatchEventTypeTag::Archived => 2,
            WatchEventTypeTag::Deleted => 3,
        }
    }

    /// The byte that stands for the variant on disk.
    pub fn to_u8(self) -> (byte: u8)
        ensures
            byte == self.byte(),
    {
        match self {
            WatchEventTypeTag::Created => 0,
            WatchEventTypeTag::Updated => 1,
            WatchEventTypeTag::Archived => 2,
            WatchEventTypeTag::Deleted => 3,
        }
    }

    /// The variant that `value` stands for, or `None` for a byte that stands for
    /// none.
    pub fn from_u8(value: u8) -> (tag: Option<Self>)
        ensures
            tag is Some <==> value < 4,
            tag matches Some(t) ==> t.byte() == value,
    {
        match value {
            0 => Some(WatchEventTypeTag::Created),
            1 => Some(WatchEventTypeTag::Updated),
            2 => Some(WatchEventTypeTag::Archived),
            3 => Some(WatchEventTypeTag::Deleted),
            _ => None,
        }
    }
}

/// Kind of entity a watch event is about.
#[derive(Clone, Copy, Debug, PartialEq, Eq, Hash, Structural)]
pub enum EntityTypeTag {
    /// An experience.
    Experience,
    /// A relation between experiences.
    Relation,
    /// A derived insight.
    Insight,
    /// A collective.
    Collective,
}

impl EntityTypeTag {
    /// The byte that stands for the variant on disk.
    pub open spec fn byte(self) -> u8 {
        match self {
            EntityTypeTag::Experience => 0,
            EntityTypeTag::Relation => 1,
            EntityTypeTag::Insight => 2,
            EntityTypeTag::Collective => 3,
        }
    }

    /// The byte that stands for the variant on disk.
    pub fn to_u8(self) -> (byte: u8)
        ensures
            byte == self.byte(),
    {
        match self {
            EntityTypeTag::Experience => 0,
            EntityTypeTag::Relation => 1,
            EntityTypeTag::Insight => 2,
            EntityTypeTag::Collective => 3,
        }
    }

    /// The variant that `value` stands for, or `None` for a byte that stands for
    /// none.
    pub fn from_u8(value: u8) -> (tag: Option<Self>)
        ensures
            tag is Some <==> value < 4,
            tag matches Some(t) ==> t.byte() == value,
    {
        match value {
            0 => Some(EntityTypeTag::Experience),
            1 => Some(EntityTypeTag::Relation),
            2 => Some(EntityTypeTag::Insight),
            3 => Some(EntityTypeTag::Collective),
            _ => None,
        }
    }
}

/// Kind of an experience, as it appears in index keys.
#[derive(Clone, Copy, Debug, PartialEq, Eq, Hash, Structural)]
pub enum ExperienceTypeTag {
    /// Problem encountered by the agent.
    Difficulty,
    /// Fix for a problem.
    Solution,
    /// Reusable error signature with fix and prevention.
    ErrorPattern,
    /// Proven approach with quality rating.
    SuccessPattern,
    /// User preference with strength.
    UserPreference,
    /// Design decision with rationale.
    ArchitecturalDecision,
    /// Technical knowledge about a technology.
    TechInsight,
    /// Verified factual statement with source.
    Fact,
    /// Catch-all for uncategorised experiences.
    Generic,
}

impl ExperienceTypeTag {
    /// The byte that stands for the variant on disk.
    pub open spec fn byte(self) -> u8 {
        match self {
            ExperienceTypeTag::Difficulty => 0,
            ExperienceTypeTag::Solution => 1,
            ExperienceTypeTag::ErrorPattern => 2,
            ExperienceTypeTag::SuccessPattern => 3,
            ExperienceTypeTag::UserPreference => 4,
            ExperienceTypeTag::ArchitecturalDecision => 5,
            ExperienceTypeTag::TechInsight => 6,
            ExperienceTypeTag::Fact => 7,
            ExperienceTypeTag::Generic => 8,
        }
    }

    /// The byte that stands for the variant on disk.
    pub fn to_u8(self) -> (byte: u8)
        ensures
            byte == self.byte(),
    {
        match self {
            ExperienceTypeTag::Difficulty => 0,
            ExperienceTypeTag::Solution => 1,
            ExperienceTypeTag::ErrorPattern => 2,
            ExperienceTypeTag::SuccessPattern => 3,
            ExperienceTypeTag::UserPreference => 4,
            ExperienceTypeTag::ArchitecturalDecision => 5,
            ExperienceTypeTag::TechInsight => 6,
            ExperienceTypeTag::Fact => 7,
            ExperienceTypeTag::Generic => 8,
        }
    }

    /// The variant that `value` stands for, or `None` for a byte that stands for
    /// none.
    pub fn from_u8(value: u8) -> (tag: Option<Self>)
        ensures
            tag is Some <==> value < 9,
            tag matches Some(t) ==> t.byte() == value,
    {
        match value {
            0 => Some(ExperienceTypeTag::Difficulty),
            1 => Some(ExperienceTypeTag::Solution),
            2 => Some(ExperienceTypeTag::ErrorPattern),
            3 => Some(ExperienceTypeTag::SuccessPattern),
            4 => Some(ExperienceTypeTag::UserPreference),
            5 => Some(ExperienceTypeTag::ArchitecturalDecision),
            6 => Some(ExperienceTypeTag::TechInsight),
            7 => Some(ExperienceTypeTag::Fact),
            8 => Some(ExperienceTypeTag::Generic),
            _ => None,
        }
    }

    /// Every variant, in byte order.
    pub fn all() -> (tags: [Self; 9])
        ensures
            forall|i: int| #![trigger tags[i]] 0 <= i < 9 ==> tags[i].byte() == i,
    {
        [
            ExperienceTypeTag::Difficulty,
            ExperienceTypeTag::Solution,
            ExperienceTypeTag::ErrorPattern,
            ExperienceTypeTag::SuccessPattern,
            ExperienceTypeTag::UserPreference,
            ExperienceTypeTag::ArchitecturalDecision,
            ExperienceTypeTag::TechInsight,
            ExperienceTypeTag::Fact,
            ExperienceTypeTag::Generic,
        ]
    }
}

impl Default for EntityTypeTag {
    fn default() -> (tag: Self)
        ensures
            tag == EntityTypeTag::Experience,
    {
        EntityTypeTag::Experience
    }
}

/// A persisted change, under its sequence number in the watch-event log.
#[derive(Clone, Copy, Debug)]
pub struct WatchEventRecord {
    /// The entity that changed.
    pub entity_id: [u8; 16],
    /// The collective the entity belongs to.
    pub collective_id: [u8; 16],
    /// What happened to it.
    pub event_type: WatchEventTypeTag,
    /// When it happened, in milliseconds since the epoch.
    pub timestamp_ms: i64,
    /// What kind of entity it is.
    pub entity_type: EntityTypeTag,
}

/// A persisted change as the first schema version wrote it, when only
/// experiences were tracked.
#[derive(Clone, Copy, Debug)]
pub struct WatchEventRecordV1 {
    /// The experience that changed.
    pub experience_id: [u8; 16],
    /// The collective the experience belongs to.
    pub collective_id: [u8; 16],
    /// What happened to it.
    pub event_type: WatchEventTypeTag,
    /// When it happened, in milliseconds since the epoch.
    pub timestamp_ms: i64,
}

/// What a store records about itself.
#[derive(Clone, Copy, Debug, PartialEq, Eq, Structural)]
pub struct DatabaseMetadata {
    /// Logical schema version of the stored records.
    pub schema_version: u32,
    /// Embedding size fixed when the store was created.
    pub embedding_dimension: EmbeddingDimension,
    /// When the store was created.
    pub created_at: Timestamp,
    /// When the store was last opened for writing.
    pub last_opened_at: Timestamp,
}

impl DatabaseMetadata {
    /// Metadata for a store created at the current moment, which is never before the
    /// epoch.
    pub fn new(embedding_dimension: EmbeddingDimension) -> (metadata: Self)
        ensures
            metadata.schema_version == SCHEMA_VERSION,
            metadata.embedding_dimension == embedding_dimension,
            metadata.last_opened_at == metadata.created_at,
            metadata.created_at.millis >= 0,
    {
        Self::new_at(embedding_dimension, Timestamp::now())
    }

    /// Metadata for a store created at `now`.
    pub fn new_at(embedding_dimension: EmbeddingDimension, now: Timestamp) -> (metadata: Self)
        ensures
            metadata == (DatabaseMetadata {
                schema_version: SCHEMA_VERSION,
                embedding_dimension,
                created_at: now,
                last_opened_at: now,
            }),
    {
        DatabaseMetadata {
            schema_version: SCHEMA_VERSION,
            embedding_dimension,
            created_at: now,
            last_opened_at: now,
        }
    }

    /// Records that the store was opened at the current moment: whatever moment stood
    /// there before gives way to a reading of the clock, which is never before the
    /// epoch.
    pub fn touch(&mut self)
        ensures
            *final(self) == (DatabaseMetadata {
                last_opened_at: final(self).last_opened_at,
                ..*old(self)
            }),
            final(self).last_opened_at.millis >= 0,
    {
        self.touch_at(Timestamp::now());
    }

    /// Records that the store was opened at `now`.
    pub fn touch_at(&mut self, now: Timestamp)
        ensures
            *final(self) == (DatabaseMetadata { last_opened_at: now, ..*old(self) }),
    {
        self.last_opened_at = now;
    }

    /// Whether the stored records are at the schema version this build writes.
    pub fn is_compatible(&self) -> (yes: bool)
        ensures
            yes == (self.schema_version == SCHEMA_VERSION),
    {
        self.schema_version == SCHEMA_VERSION
    }
}

/// Joins two byte arrays.
pub fn concat_arrays<const A: usize, const B: usize, const N: usize>(
    a: &[u8; A],
    b: &[u8; B],
) -> (out: [u8; N])
    requires
        A + B == N,
    ensures
        out@ == a@ + b@,
{
    let mut out: [u8; N] = [0u8; N];
    let mut i: usize = 0;
    while i < A
        invariant
            i <= A,
            A + B == N,
            forall|j: int| 0 <= j < i ==> out@[j] == a@[j],
        decreases A - i,
    {
        out[i] = a[i];
        i = i + 1;
    }
    let mut k: usize = 0;
    while k < B
        invariant
            k <= B,
            A + B == N,
            forall|j: int| 0 <= j < A ==> out@[j] == a@[j],
            forall|j: int| A <= j < A + k ==> out@[j] == b@[j - A],
        decreases B - k,
    {
        out[A + k] = b[k];
        k = k + 1;
    }
    assert(out@ =~= a@ + b@);
    out
}

/// Copies `N` bytes out of `bytes`, from position `from` on.
pub fn array_at<const N: usize>(bytes: &[u8], from: usize) -> (out: [u8; N])
    requires
        from + N <= bytes@.len(),
    ensures
        out@ == bytes@.subrange(from as int, from + N),
{
    let mut out: [u8; N] = [0u8; N];
    let mut i: usize = 0;
    let total: usize = bytes.len();
    while i < N
        invariant
            i <= N,
            from + N <= bytes@.len() == total,
            forall|j: int| 0 <= j < i ==> out@[j] == bytes@[from + j],
        decreases N - i,
    {
        out[i] = bytes[from + i];
        i = i + 1;
    }
    assert(out@ =~= bytes@.subrange(from as int, from + N));
    out
}

/// Index key of a collective and a moment: the collective's sixteen bytes, then
/// the moment's eight.
pub fn encode_collective_timestamp_key(collective_id: &[u8; 16], timestamp: Timestamp) -> (key: [u8;
    24])
    ensures
        key@ == collective_id@ + timestamp.spec_bytes(),
{
    concat_arrays::<16, 8, 24>(collective_id, &timestamp.to_be_bytes())
}

/// The moment inside an index key.
pub fn decode_timestamp_from_key(key: &[u8; 24]) -> (timestamp: Timestamp)
    ensures
        timestamp.spec_bytes() == key@.subrange(16, 24),
        timestamp.millis == crate::types::bits_millis(
            crate::bytes::be_value(key@.subrange(16, 24)),
        ),
{
    let bytes: [u8; 8] = array_at::<8>(key.as_slice(), 16);
    Timestamp::from_be_bytes(bytes)
}

/// The smallest index key of a collective whose moments are at or after the
/// epoch.
pub fn collective_range_start(collective_id: &[u8; 16]) -> (key: [u8; 24])
    ensures
        key@ == collective_id@ + (Timestamp { millis: 0 }).spec_bytes(),
{
    encode_collective_timestamp_key(collective_id, Timestamp::from_millis(0))
}

/// The largest index key of a collective.
pub fn collective_range_end(collective_id: &[u8; 16]) -> (key: [u8; 24])
    ensures
        key@ == collective_id@ + (Timestamp { millis: i64::MAX }).spec_bytes(),
{
    encode_collective_timestamp_key(collective_id, Timestamp::from_millis(i64::MAX))
}

/// Index key of a collective and an experience kind: the collective's sixteen
/// bytes, then the kind's byte.
pub fn encode_type_index_key(collective_id: &[u8; 16], type_tag: ExperienceTypeTag) -> (key: [u8;
    17])
    ensures
        key@ == collective_id@.push(type_tag.byte()),
{
    let tag: [u8; 1] = [type_tag.to_u8()];
    let key: [u8; 17] = concat_arrays::<16, 1, 17>(collective_id, &tag);
    assert(key@ =~= collective_id@.push(type_tag.byte()));
    key
}

/// The experience kind inside an index key, or `None` where its byte stands for
/// none.
pub fn decode_type_tag_from_key(key: &[u8; 17]) -> (tag: Option<ExperienceTypeTag>)
    ensures
        tag is Some <==> key@[16] < 9,
        tag matches Some(t) ==> t.byte() == key@[16],
{
    ExperienceTypeTag::from_u8(key[16])
}

/// The collective inside an index key.
pub fn decode_collective_from_type_key(key: &[u8; 17]) -> (id: [u8; 16])
    ensures
        id@ == key@.subrange(0, 16),
{
    array_at::<16>(key.as_slice(), 0)
}

/// Key of an agent's activity in a collective: the collective's sixteen bytes,
/// the agent name's byte length in two (modulo 65536), then the name itself.
pub open spec fn activity_key(collective: Seq<u8>, agent: Seq<u8>) -> Seq<u8> {
    collective + crate::bytes::be(agent.len() % 0x1_0000, 2) + agent
}

/// Builds the key of an agent's activity in a collective.
pub fn encode_activity_key(collective_id: &[u8; 16], agent_id: &str) -> (key: Vec<u8>)
    ensures
        key@ == activity_key(collective_id@, agent_id.spec_bytes()),
{
    let agent: &[u8] = agent_id.as_bytes();
    let len: u128 = (agent.len() % 0x1_0000) as u128;
    proof {
        crate::bytes::lemma_pow256_values();
    }
    let len_bytes: [u8; 2] = to_be::<2>(len);
    let mut key: Vec<u8> = Vec::with_capacity(18);
    key.extend_from_slice(collective_id.as_slice());
    key.extend_from_slice(len_bytes.as_slice());
    key.extend_from_slice(agent);
    assert(key@ =~= activity_key(collective_id@, agent_id.spec_bytes()));
    key
}

/// The collective inside an activity key.
pub fn decode_collective_from_activity_key(key: &[u8]) -> (id: [u8; 16])
    requires
        key@.len() >= 16,
    ensures
        id@ == key@.subrange(0, 16),
{
    array_at::<16>(key, 0)
}

/// Views bytes as text by `std::str::from_utf8`, which succeeds exactly on valid
/// UTF-8 and then denotes the same bytes.
#[verifier::external_body]
fn utf8_text(bytes: &[u8]) -> (text: &str)
    requires
        vstd::utf8::valid_utf8(bytes@),
    ensures
        text.spec_bytes() == bytes@,
{
    std::str::from_utf8(bytes).expect("activity key contains invalid UTF-8")
}

/// The length of the agent name that an activity key announces.
pub open spec fn activity_key_agent_len(key: Seq<u8>) -> nat {
    crate::bytes::be_value(key.subrange(16, 18))
}

/// Whether `key` is long enough for the agent name it announces, and the name
/// is valid UTF-8.
pub open spec fn activity_key_well_formed(key: Seq<u8>) -> bool {
    &&& key.len() >= 18
    &&& key.len() >= 18 + activity_key_agent_len(key)
    &&& vstd::utf8::valid_utf8(key.subrange(18, (18 + activity_key_agent_len(key)) as int))
}

/// The agent name inside an activity key.
pub fn decode_agent_id_from_activity_key(key: &[u8]) -> (agent: &str)
    requires
        activity_key_well_formed(key@),
    ensures
        agent.spec_bytes() == key@.subrange(18, (18 + activity_key_agent_len(key@)) as int),
{
    let len_bytes: [u8; 2] = array_at::<2>(key, 16);
    let len: u128 = from_be(len_bytes.as_slice());
    proof {
        crate::bytes::lemma_be_of_value(len_bytes@);
        crate::bytes::lemma_pow256_values();
    }
    let end: usize = 18 + len as usize;
    utf8_text(vstd::slice::slice_subrange(key, 18, end))
}

/// Distinct variants of a tag have distinct bytes, numbered from zero.
pub proof fn law_tag_bytes_injective(
    a: ExperienceTypeTag,
    b: ExperienceTypeTag,
    c: WatchEventTypeTag,
    d: WatchEventTypeTag,
    e: EntityTypeTag,
    f: EntityTypeTag,
)
    ensures
        a.byte() == b.byte() ==> a == b,
        c.byte() == d.byte() ==> c == d,
        e.byte() == f.byte() ==> e == f,
        a.byte() < 9 && c.byte() < 4 && e.byte() < 4,
{
}

/// Inside one collective, byte order of timestamp keys is time order, for
/// moments at or after the epoch.
pub proof fn law_timestamp_key_order(collective: Seq<u8>, a: Timestamp, b: Timestamp)
    requires
        a.millis >= 0,
        b.millis >= 0,
    ensures
        crate::bytes::lex_lt(collective + a.spec_bytes(), collective + b.spec_bytes())
            <==> a.millis < b.millis,
{
    crate::types::law_timestamp_bytes_order(a, b);
    crate::bytes::lemma_lex_same_prefix(collective, a.spec_bytes(), b.spec_bytes());
}

/// Every timestamp key of a collective at or after the epoch lies within the
/// collective's key range.
pub proof fn law_collective_range_covers(collective: Seq<u8>, t: Timestamp)
    requires
        t.millis >= 0,
    ensures
        !crate::bytes::lex_lt(
            collective + t.spec_bytes(),
            collective + (Timestamp { millis: 0 }).spec_bytes(),
        ),
        !crate::bytes::lex_lt(
            collective + (Timestamp { millis: i64::MAX }).spec_bytes(),
            collective + t.spec_bytes(),
        ),
{
    law_timestamp_key_order(collective, t, Timestamp { millis: 0 });
    law_timestamp_key_order(collective, Timestamp { millis: i64::MAX }, t);
}

/// A timestamp key decodes to the moment it was built from, and keeps its
/// collective as a prefix.
pub proof fn law_timestamp_key_round_trip(collective: Seq<u8>, t: Timestamp)
    requires
        collective.len() == 16,
    ensures
        (collective + t.spec_bytes()).subrange(16, 24) == t.spec_bytes(),
        (collective + t.spec_bytes()).subrange(0, 16) == collective,
        crate::types::bits_millis(crate::bytes::be_value(t.spec_bytes())) == t.millis,
{
    crate::bytes::lemma_pow256_values();
    crate::bytes::lemma_be_len(crate::types::millis_bits(t.millis), 8);
    crate::bytes::lemma_be_round_trip(crate::types::millis_bits(t.millis), 8);
    assert((collective + t.spec_bytes()).subrange(16, 24) =~= t.spec_bytes());
    assert((collective + t.spec_bytes()).subrange(0, 16) =~= collective);
}

/// Type-index keys of distinct collectives or distinct kinds are distinct.
pub proof fn law_type_index_key_injective(
    a: Seq<u8>,
    s: ExperienceTypeTag,
    b: Seq<u8>,
    t: ExperienceTypeTag,
)
    requires
        a.push(s.byte()) == b.push(t.byte()),
    ensures
        a == b,
        s == t,
{
    assert(a =~= a.push(s.byte()).drop_last());
    assert(b =~= b.push(t.byte()).drop_last());
    assert(a.push(s.byte()).last() == s.byte());
    assert(b.push(t.byte()).last() == t.byte());
    law_tag_bytes_injective(
        s,
        t,
        WatchEventTypeTag::Created,
        WatchEventTypeTag::Created,
        EntityTypeTag::Experience,
        EntityTypeTag::Experience,
    );
}

/// Activity keys of distinct collectives or distinct agents are distinct.
pub proof fn law_activity_key_injective(a: Seq<u8>, s: Seq<u8>, b: Seq<u8>, t: Seq<u8>)
    requires
        a.len() == 16,
        b.len() == 16,
        activity_key(a, s) == activity_key(b, t),
    ensures
        a == b,
        s == t,
{
    crate::bytes::lemma_be_len(s.len() % 0x1_0000, 2);
    crate::bytes::lemma_be_len(t.len() % 0x1_0000, 2);
    assert(a =~= activity_key(a, s).take(16));
    assert(b =~= activity_key(b, t).take(16));
    assert(s =~= activity_key(a, s).skip(18));
    assert(t =~= activity_key(b, t).skip(18));
}

/// An activity key is well formed and decodes to the collective and the agent
/// it was built from, for agent names that fit the two-byte length.
pub proof fn law_activity_key_round_trip(collective: Seq<u8>, agent: Seq<char>)
    requires
        collective.len() == 16,
        vstd::utf8::encode_utf8(agent).len() < 0x1_0000,
    ensures
        ({
            let bytes = vstd::utf8::encode_utf8(agent);
            let key = activity_key(collective, bytes);
            &&& activity_key_well_formed(key)
            &&& key.subrange(0, 16) == collective
            &&& key.subrange(18, (18 + activity_key_agent_len(key)) as int) == bytes
        }),
{
    let bytes = vstd::utf8::encode_utf8(agent);
    let key = activity_key(collective, bytes);
    vstd::utf8::encode_utf8_valid_utf8(agent);
    crate::bytes::lemma_pow256_values();
    crate::bytes::lemma_be_len(bytes.len(), 2);
    crate::bytes::lemma_be_round_trip(bytes.len(), 2);
    assert(key.subrange(16, 18) =~= crate::bytes::be(bytes.len(), 2));
    assert(key.subrange(0, 16) =~= collective);
    assert(key.subrange(18, (18 + bytes.len()) as int) =~= bytes);
}

} // verus!
