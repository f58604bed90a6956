//! The records a store holds.
//!
//! Floating-point components are carried as their IEEE-754 bit patterns: the
//! store copies them and never computes with them.

use vstd::prelude::*;
use std::collections::BTreeMap;

use crate::storage::schema::ExperienceTypeTag;
use crate::types::{CollectiveId, ExperienceId, InsightId, InstanceId, RelationId, Timestamp};

verus! {

/// What an experience is about: its kind and the kind's own data.
#[derive(Clone, Debug)]
pub struct ExperienceType {
    /// The kind.
    pub tag: ExperienceTypeTag,
    /// Data of the kind, in the form the caller gave it.
    pub detail: String,
}

impl ExperienceType {
    /// The kind, as it appears in index keys.
    pub fn type_tag(&self) -> (tag: ExperienceTypeTag)
        ensures
            tag == self.tag,
    {
        self.tag
    }
}

/// Something an agent learned.
#[derive(Clone, Debug)]
pub struct Experience {
    /// Identifier.
    pub id: ExperienceId,
    /// The collective it belongs to.
    pub collective_id: CollectiveId,
    /// What was learned.
    pub content: String,
    /// Embedding components, as bit patterns. Stored beside the record.
    pub embedding: Vec<u32>,
    /// What it is about.
    pub experience_type: ExperienceType,
    /// Importance, as a bit pattern.
    pub importance: u32,
    /// Confidence, as a bit pattern.
    pub confidence: u32,
    /// Reinforcements counted per store instance.
    pub applications: BTreeMap<u128, u32>,
    /// Domain tags.
    pub domain: Vec<String>,
    /// Key-value tags.
    pub tags: Vec<(String, String)>,
    /// Files it is about.
    pub related_files: Vec<String>,
    /// The agent it came from.
    pub source_agent: String,
    /// The task it came from.
    pub source_task: Option<String>,
    /// When it was recorded.
    pub timestamp: Timestamp,
    /// When it was last reinforced.
    pub last_reinforced: Timestamp,
    /// Whether it is soft-deleted.
    pub archived: bool,
}

impl Experience {
    /// The number of reinforcements over all instances, saturating.
    pub fn applications(&self) -> (n: u32)
        ensures
            n as nat == if crate::gcounter::total(self.applications@) > u32::MAX {
                u32::MAX as nat
            } else {
                crate::gcounter::total(self.applications@)
            },
    {
        crate::gcounter::sum(&self.applications)
    }
}

/// An experience as the second schema version wrote it: one scalar count, no
/// reinforcement time.
#[derive(Clone, Debug)]
pub struct ExperienceV2 {
    /// Identifier.
    pub id: ExperienceId,
    /// The collective it belongs to.
    pub collective_id: CollectiveId,
    /// What was learned.
    pub content: String,
    /// Embedding components, as bit patterns.
    pub embedding: Vec<u32>,
    /// What it is about.
    pub experience_type: ExperienceType,
    /// Importance, as a bit pattern.
    pub importance: u32,
    /// Confidence, as a bit pattern.
    pub confidence: u32,
    /// Reinforcements, all instances in one.
    pub applications: u32,
    /// Domain tags.
    pub domain: Vec<String>,
    /// Files it is about.
    pub related_files: Vec<String>,
    /// The agent it came from.
    pub source_agent: String,
    /// The task it came from.
    pub source_task: Option<String>,
    /// When it was recorded.
    pub timestamp: Timestamp,
    /// Whether it is soft-deleted.
    pub archived: bool,
}

/// A partial update of an experience; absent fields stay as they are.
#[derive(Clone, Debug)]
pub struct ExperienceUpdate {
    /// New importance, as a bit pattern.
    pub importance: Option<u32>,
    /// New confidence, as a bit pattern.
    pub confidence: Option<u32>,
    /// New domain tags.
    pub domain: Option<Vec<String>>,
    /// New key-value tags.
    pub tags: Option<Vec<(String, String)>>,
    /// New related files.
    pub related_files: Option<Vec<String>>,
    /// New soft-deletion flag.
    pub archived: Option<bool>,
}

impl ExperienceUpdate {
    /// The update that changes nothing.
    pub open spec fn spec_empty() -> ExperienceUpdate {
        ExperienceUpdate {
            importance: None,
            confidence: None,
            domain: None,
            tags: None,
            related_files: None,
            archived: None,
        }
    }
}

impl Default for ExperienceUpdate {
    fn default() -> (u: Self)
        ensures
            u == ExperienceUpdate::spec_empty(),
    {
        ExperienceUpdate {
            importance: None,
            confidence: None,
            domain: None,
            tags: None,
            related_files: None,
            archived: None,
        }
    }
}

/// How one experience relates to another.
#[derive(Clone, Copy, Debug, PartialEq, Eq, Structural)]
pub struct RelationType {
    /// Number of the relation kind.
    pub code: u8,
}

/// A directed relation between two experiences.
#[derive(Clone, Debug)]
pub struct ExperienceRelation {
    /// Identifier.
    pub id: RelationId,
    /// The experience it leads from.
    pub source_id: ExperienceId,
    /// The experience it leads to.
    pub target_id: ExperienceId,
    /// Its kind.
    pub relation_type: RelationType,
    /// Strength, as a bit pattern.
    pub strength: u32,
    /// Free-form metadata.
    pub metadata: Option<String>,
    /// When it was recorded.
    pub created_at: Timestamp,
}

/// How an insight was derived.
#[derive(Clone, Copy, Debug, PartialEq, Eq, Structural)]
pub struct InsightType {
    /// Number of the insight kind.
    pub code: u8,
}

/// Knowledge derived from several experiences.
#[derive(Clone, Debug)]
pub struct DerivedInsight {
    /// Identifier.
    pub id: InsightId,
    /// The collective it belongs to.
    pub collective_id: CollectiveId,
    /// What was derived.
    pub content: String,
    /// Embedding vector, each component as a bit pattern.
    pub embedding: Vec<u32>,
    /// The experiences it was derived from.
    pub source_experience_ids: Vec<ExperienceId>,
    /// Its kind.
    pub insight_type: InsightType,
    /// Confidence, as a bit pattern.
    pub confidence: u32,
    /// Domain labels.
    pub domain: Vec<String>,
    /// When it was recorded.
    pub created_at: Timestamp,
    /// When it was last changed.
    pub updated_at: Timestamp,
}

/// A group of agents that share experiences.
#[derive(Clone, Debug)]
pub struct Collective {
    /// Identifier.
    pub id: CollectiveId,
    /// Name.
    pub name: String,
    /// Who owns it.
    pub owner_id: Option<String>,
    /// Number of components of its embeddings.
    pub embedding_dimension: u16,
    /// When it was created.
    pub created_at: Timestamp,
    /// When it was last changed.
    pub updated_at: Timestamp,
}

/// Presence of an agent in a collective.
#[derive(Clone, Debug)]
pub struct Activity {
    /// The agent.
    pub agent_id: String,
    /// The collective.
    pub collective_id: CollectiveId,
    /// What the agent is doing.
    pub current_task: Option<String>,
    /// What the agent's context holds, in short.
    pub context_summary: Option<String>,
    /// When the agent's session started.
    pub started_at: Timestamp,
    /// When it was last heard of.
    pub last_heartbeat: Timestamp,
}

/// How far syncing with one peer has come.
#[derive(Clone, Copy, Debug, PartialEq, Eq, Structural)]
pub struct SyncCursor {
    /// The peer.
    pub instance_id: InstanceId,
    /// Highest local sequence the peer has acknowledged.
    pub push_sequence: u64,
    /// Highest sequence of the peer that is applied here.
    pub pull_sequence: u64,
}

} // verus!
