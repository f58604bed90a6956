//! Messages peers exchange.

use vstd::prelude::*;
use std::collections::BTreeMap;
use vstd::string::StrSliceExecFns;

use crate::model::{Collective, DerivedInsight, Experience, ExperienceRelation, ExperienceUpdate};
use crate::sync::error::SyncError;
use crate::sync::SYNC_PROTOCOL_VERSION;
use crate::types::{CollectiveId, ExperienceId, InsightId, InstanceId, RelationId, Timestamp};

verus! {

/// Most capabilities one handshake may list.
pub const MAX_HANDSHAKE_CAPABILITIES: usize = 16;

/// Most bytes of one capability name.
pub const MAX_CAPABILITY_BYTES: usize = 32;

/// Most bytes of a human-readable reason on the wire.
pub const MAX_WIRE_DETAIL_BYTES: usize = 256;

/// Machine-readable reason a peer gives for refusing a request.
#[derive(Clone, Copy, Debug, PartialEq, Eq, Structural)]
pub enum WireErrorCode {
    /// The request declared another protocol version.
    ProtocolVersion,
    /// The request is inconsistent or unusable.
    InvalidRequest,
}

impl WireErrorCode {
    /// The reason's name.
    pub open spec fn name_chars(self) -> Seq<char> {
        match self {
            WireErrorCode::ProtocolVersion => "ProtocolVersion"@,
            WireErrorCode::InvalidRequest => "InvalidRequest"@,
        }
    }

    /// The reason's name.
    pub fn name(self) -> (s: &'static str)
        ensures
            s@ == self.name_chars(),
    {
        match self {
            WireErrorCode::ProtocolVersion => "ProtocolVersion",
            WireErrorCode::InvalidRequest => "InvalidRequest",
        }
    }
}

/// What kind of record a change is about.
#[derive(Clone, Copy, Debug, PartialEq, Eq, Structural)]
pub enum SyncEntityType {
    /// An experience.
    Experience,
    /// A relation.
    Relation,
    /// An insight.
    Insight,
    /// A collective.
    Collective,
}

/// The mutable fields of an experience as they travel; absent fields stay as they
/// are, and counters are merged rather than taken over.
#[derive(Clone, Debug)]
pub struct SerializableExperienceUpdate {
    /// Importance, as a bit pattern.
    pub importance: Option<u32>,
    /// Confidence, as a bit pattern.
    pub confidence: Option<u32>,
    /// Domain tags.
    pub domain: Option<Vec<String>>,
    /// Key-value tags.
    pub tags: Option<Vec<(String, String)>>,
    /// Related files.
    pub related_files: Option<Vec<String>>,
    /// Soft-deletion flag.
    pub archived: Option<bool>,
    /// Reinforcements counted per instance.
    pub applications: Option<BTreeMap<u128, u32>>,
    /// Time of the last reinforcement.
    pub last_reinforced: Option<Timestamp>,
}

impl SerializableExperienceUpdate {
    /// The part that is taken over field by field.
    pub open spec fn scalars(self) -> ExperienceUpdate {
        ExperienceUpdate {
            importance: self.importance,
            confidence: self.confidence,
            domain: self.domain,
            tags: self.tags,
            related_files: self.related_files,
            archived: self.archived,
        }
    }

    /// The part that is taken over field by field.
    pub fn into_update(self) -> (update: ExperienceUpdate)
        ensures
            update == self.scalars(),
    {
        ExperienceUpdate {
            importance: self.importance,
            confidence: self.confidence,
            domain: self.domain,
            tags: self.tags,
            related_files: self.related_files,
            archived: self.archived,
        }
    }
}

/// What a change does.
#[derive(Clone, Debug)]
#[allow(inconsistent_fields)]
pub enum SyncPayload {
    /// An experience was recorded.
    ExperienceCreated(Experience),
    /// An experience was changed.
    ExperienceUpdated {
        /// The experience.
        id: ExperienceId,
        /// Its mutable fields.
        update: SerializableExperienceUpdate,
        /// When.
        timestamp: Timestamp,
    },
    /// An experience was soft-deleted.
    ExperienceArchived {
        /// The experience.
        id: ExperienceId,
        /// When.
        timestamp: Timestamp,
    },
    /// An experience was removed.
    ExperienceDeleted {
        /// The experience.
        id: ExperienceId,
        /// When.
        timestamp: Timestamp,
    },
    /// A relation was recorded.
    RelationCreated(ExperienceRelation),
    /// A relation was removed.
    RelationDeleted {
        /// The relation.
        id: RelationId,
        /// When.
        timestamp: Timestamp,
    },
    /// An insight was recorded.
    InsightCreated(DerivedInsight),
    /// An insight was removed.
    InsightDeleted {
        /// The insight.
        id: InsightId,
        /// When.
        timestamp: Timestamp,
    },
    /// A collective was created.
    CollectiveCreated(Collective),
}

/// One change of one store's log.
#[derive(Clone, Debug)]
pub struct SyncChange {
    /// Its sequence in the log it comes from.
    pub sequence: u64,
    /// Whose log that is.
    pub source_instance: InstanceId,
    /// The collective it belongs to.
    pub collective_id: CollectiveId,
    /// What kind of record it is about.
    pub entity_type: SyncEntityType,
    /// What it does.
    pub payload: SyncPayload,
    /// When it happened.
    pub timestamp: Timestamp,
}

/// A position in the log of one instance.
#[derive(Clone, Copy, Debug, PartialEq, Eq, Structural)]
pub struct SyncPosition {
    /// Whose log.
    pub instance_id: InstanceId,
    /// The last sequence seen.
    pub sequence: u64,
}

impl SyncPosition {
    /// A position in the log of `instance_id`.
    pub fn new(instance_id: InstanceId, sequence: u64) -> (position: Self)
        ensures
            position == (SyncPosition { instance_id, sequence }),
    {
        SyncPosition { instance_id, sequence }
    }
}

/// Opens a session.
#[derive(Clone, Debug)]
pub struct HandshakeRequest {
    /// Who asks.
    pub instance_id: InstanceId,
    /// The protocol version they speak.
    pub protocol_version: u32,
    /// What they can do; informational.
    pub capabilities: Vec<String>,
}

/// Number of bytes of `text` in its encoded form.
pub open spec fn byte_len(text: String) -> nat {
    vstd::utf8::encode_utf8(text@).len()
}

impl HandshakeRequest {
    /// Whether the request is small enough for the control budget.
    pub open spec fn in_bounds(self) -> bool {
        &&& self.capabilities@.len() <= MAX_HANDSHAKE_CAPABILITIES
        &&& forall|i: int|
            #![trigger self.capabilities@[i]]
            0 <= i < self.capabilities@.len() ==> byte_len(self.capabilities@[i])
                <= MAX_CAPABILITY_BYTES
    }

    /// Refuses a request too large for the control budget.
    pub fn check_bounds(&self) -> (r: Result<(), SyncError>)
        ensures
            r is Ok <==> self.in_bounds(),
            r matches Err(e) ==> (e matches SyncError::InvalidPayload(m) && m@
                == if self.capabilities@.len() > MAX_HANDSHAKE_CAPABILITIES {
                "handshake lists more than 16 capabilities"@
            } else {
                "handshake lists a capability of more than 32 bytes"@
            }),
    {
        if self.capabilities.len() > MAX_HANDSHAKE_CAPABILITIES {
            return Err(SyncError::invalid_payload("handshake lists more than 16 capabilities"));
        }
        let mut i: usize = 0;
        while i < self.capabilities.len()
            invariant
                i <= self.capabilities@.len(),
                self.capabilities@.len() <= MAX_HANDSHAKE_CAPABILITIES,
                forall|j: int|
                    #![trigger self.capabilities@[j]]
                    0 <= j < i ==> byte_len(self.capabilities@[j]) <= MAX_CAPABILITY_BYTES,
            decreases self.capabilities@.len() - i,
        {
            let size: usize = self.capabilities[i].as_str().as_bytes().len();
            if size > MAX_CAPABILITY_BYTES {
                return Err(
                    SyncError::invalid_payload(
                        "handshake lists a capability of more than 32 bytes",
                    ),
                );
            }
            i = i + 1;
        }
        Ok(())
    }
}

/// Answers a handshake.
#[derive(Clone, Debug)]
pub struct HandshakeResponse {
    /// Who answers.
    pub instance_id: InstanceId,
    /// The protocol version they speak.
    pub protocol_version: u32,
    /// Whether the session is open.
    pub accepted: bool,
    /// Why it is not.
    pub reason: Option<String>,
    /// Most bytes of a body they accept.
    pub receive_limit_bytes: u64,
}

/// Sends changes.
#[derive(Clone, Debug)]
pub struct PushRequest {
    /// The protocol version of the sender.
    pub protocol_version: u32,
    /// The sender, whose log the sequences index.
    pub source_instance: InstanceId,
    /// Whom the request is for.
    pub target_instance: InstanceId,
    /// Most bytes of an answer the sender can read.
    pub reply_limit_bytes: u64,
    /// The changes.
    pub changes: Vec<SyncChange>,
}

/// Acknowledges changes.
#[derive(Clone, Copy, Debug, PartialEq, Eq, Structural)]
pub struct PushAck {
    /// Whose log the position indexes.
    pub wal_owner: InstanceId,
    /// Changes that were applied or already there.
    pub accepted: u64,
    /// Changes that failed.
    pub rejected: u64,
    /// Changes received.
    pub total: u64,
    /// The highest sequence at or below which every change succeeded.
    pub safe_through: Option<u64>,
}

/// Asks for changes.
#[derive(Clone, Debug)]
pub struct PullRequest {
    /// The protocol version of the requester.
    pub protocol_version: u32,
    /// The requester.
    pub source_instance: InstanceId,
    /// Whom the request is for.
    pub target_instance: InstanceId,
    /// The position to continue from.
    pub cursor: SyncPosition,
    /// Most changes wanted.
    pub batch_size: u64,
    /// Most bytes of an answer the requester can read.
    pub reply_limit_bytes: u64,
    /// The collectives wanted, or all.
    pub collectives: Option<Vec<CollectiveId>>,
}

/// A page of changes.
#[derive(Clone, Debug)]
pub struct PullPage {
    /// The changes, in log order.
    pub changes: Vec<SyncChange>,
    /// Whether the log may hold more.
    pub has_more: bool,
    /// How far the log was read.
    pub scan_position: SyncPosition,
}

/// What a routed request led to.
#[derive(Clone, Debug)]
#[allow(inconsistent_fields)]
pub enum WireResult<T> {
    /// It was served.
    Served(T),
    /// It was addressed to another instance; nothing happened.
    PeerChanged {
        /// The instance it was addressed to.
        expected: InstanceId,
    },
    /// It was refused.
    Rejected {
        /// Machine-readable reason.
        code: WireErrorCode,
        /// Human-readable reason.
        detail: String,
    },
    /// One change does not fit an answer on its own.
    ChangeTooLarge {
        /// Sequence of the change.
        sequence: u64,
        /// Frame size it requires.
        needed: u64,
        /// The budget it was measured against.
        cap: u64,
    },
}

/// An answer to a routed request.
#[derive(Clone, Debug)]
pub struct WireReply<T> {
    /// The protocol version of the responder.
    pub protocol_version: u32,
    /// Who answered.
    pub responder: InstanceId,
    /// What came of the request.
    pub result: WireResult<T>,
}

/// How many leading characters of `text` fit `budget` bytes.
pub open spec fn chars_within(text: Seq<char>, budget: nat) -> nat
    decreases text.len(),
{
    if vstd::utf8::encode_utf8(text).len() <= budget || text.len() == 0 {
        text.len()
    } else {
        chars_within(text.drop_last(), budget)
    }
}

/// `text` shortened, character by character from its end, to what a reply may
/// carry.
pub open spec fn bounded_detail(text: Seq<char>) -> Seq<char> {
    text.take(chars_within(text, MAX_WIRE_DETAIL_BYTES as nat) as int)
}

proof fn lemma_chars_within(text: Seq<char>, budget: nat)
    ensures
        chars_within(text, budget) <= text.len(),
        vstd::utf8::encode_utf8(text.take(chars_within(text, budget) as int)).len() <= budget,
    decreases text.len(),
{
    let n = chars_within(text, budget) as int;
    if vstd::utf8::encode_utf8(text).len() <= budget || text.len() == 0 {
        assert(text.take(n) =~= text);
    } else {
        lemma_chars_within(text.drop_last(), budget);
        assert(text.drop_last().take(n) =~= text.take(n));
    }
}

/// A bounded detail fits the wire, and a detail that fits is carried whole.
pub proof fn law_bounded_detail(text: Seq<char>)
    ensures
        vstd::utf8::encode_utf8(bounded_detail(text)).len() <= MAX_WIRE_DETAIL_BYTES,
        vstd::utf8::encode_utf8(text).len() <= MAX_WIRE_DETAIL_BYTES ==> bounded_detail(text)
            == text,
{
    lemma_chars_within(text, MAX_WIRE_DETAIL_BYTES as nat);
    assert(text.take(text.len() as int) =~= text);
}

/// Shortens a human-readable reason to what a reply may carry.
pub fn bound_wire_detail(text: &str) -> (detail: String)
    ensures
        detail@ == bounded_detail(text@),
{
    let mut n: usize = text.unicode_len();
    assert(text@.take(n as int) =~= text@);
    while n > 0
        invariant
            n <= text@.len(),
            chars_within(text@.take(n as int), MAX_WIRE_DETAIL_BYTES as nat) == chars_within(
                text@,
                MAX_WIRE_DETAIL_BYTES as nat,
            ),
        ensures
            n <= text@.len(),
            n == chars_within(text@, MAX_WIRE_DETAIL_BYTES as nat),
        decreases n,
    {
        let head = text.substring_char(0, n);
        assert(head@ =~= text@.take(n as int));
        if head.as_bytes().len() <= MAX_WIRE_DETAIL_BYTES {
            break;
        }
        assert(text@.take(n as int).drop_last() =~= text@.take(n - 1));
        n = n - 1;
    }
    let head = text.substring_char(0, n);
    assert(head@ =~= text@.take(n as int));
    String::from_str(head)
}

impl<T> WireReply<T> {
    /// An answer that served the request.
    pub fn ok(responder: InstanceId, value: T) -> (reply: Self)
        ensures
            reply == (WireReply {
                protocol_version: SYNC_PROTOCOL_VERSION,
                responder,
                result: WireResult::Served(value),
            }),
    {
        WireReply {
            protocol_version: SYNC_PROTOCOL_VERSION,
            responder,
            result: WireResult::Served(value),
        }
    }

    /// The answer to a request that was addressed to another instance.
    pub fn peer_changed(responder: InstanceId, expected: InstanceId) -> (reply: Self)
        ensures
            reply == (WireReply::<T> {
                protocol_version: SYNC_PROTOCOL_VERSION,
                responder,
                result: WireResult::PeerChanged { expected },
            }),
    {
        WireReply {
            protocol_version: SYNC_PROTOCOL_VERSION,
            responder,
            result: WireResult::PeerChanged { expected },
        }
    }

    /// Whether this is the refusal `responder` gives with `code`, and with as much
    /// of `detail` as a reply may carry.
    pub open spec fn refuses(
        self,
        responder: InstanceId,
        code: WireErrorCode,
        detail: Seq<char>,
    ) -> bool {
        &&& self.protocol_version == SYNC_PROTOCOL_VERSION
        &&& self.responder == responder
        &&& self.result matches WireResult::Rejected { code: c, detail: d }
        &&& c == code
        &&& d@ == bounded_detail(detail)
    }

    /// The refusal of a request.
    pub fn rejected(responder: InstanceId, code: WireErrorCode, detail: &str) -> (reply: Self)
        ensures
            reply.refuses(responder, code, detail@),
    {
        WireReply {
            protocol_version: SYNC_PROTOCOL_VERSION,
            responder,
            result: WireResult::Rejected { code, detail: bound_wire_detail(detail) },
        }
    }

    /// What the answer comes to for one who addressed `expected`: an answer by
    /// anyone else is refused whatever it says.
    pub open spec fn outcome(self, expected: InstanceId) -> Result<T, SyncError> {
        if self.responder != expected {
            Err(SyncError::PeerChanged { expected, responder: self.responder })
        } else if self.protocol_version != SYNC_PROTOCOL_VERSION {
            Err(
                SyncError::ProtocolVersion {
                    local: SYNC_PROTOCOL_VERSION,
                    remote: self.protocol_version,
                },
            )
        } else {
            match self.result {
                WireResult::Served(value) => Ok(value),
                WireResult::PeerChanged { .. } => Err(
                    SyncError::PeerChanged { expected, responder: self.responder },
                ),
                WireResult::Rejected { code, detail } => Err(
                    SyncError::RemoteRejected { code, detail },
                ),
                WireResult::ChangeTooLarge { sequence, needed, cap } => Err(
                    SyncError::ChangeTooLarge { sequence, needed, cap },
                ),
            }
        }
    }

    /// What the answer comes to for one who addressed `expected`.
    pub fn into_result(self, expected: InstanceId) -> (r: Result<T, SyncError>)
        ensures
            r == self.outcome(expected),
    {
        if self.responder != expected {
            return Err(SyncError::PeerChanged { expected, responder: self.responder });
        }
        if self.protocol_version != SYNC_PROTOCOL_VERSION {
            return Err(
                SyncError::ProtocolVersion {
                    local: SYNC_PROTOCOL_VERSION,
                    remote: self.protocol_version,
                },
            );
        }
        match self.result {
            WireResult::Served(value) => Ok(value),
            WireResult::PeerChanged { .. } => Err(
                SyncError::PeerChanged { expected, responder: self.responder },
            ),
            WireResult::Rejected { code, detail } => Err(
                SyncError::RemoteRejected { code, detail },
            ),
            WireResult::ChangeTooLarge { sequence, needed, cap } => Err(
                SyncError::ChangeTooLarge { sequence, needed, cap },
            ),
        }
    }
}

/// Counters kept locally; they never travel.
#[derive(Clone, Copy, Debug, PartialEq, Eq, Structural)]
pub struct SyncStats {
    /// Reinforcements dated further into the future than the allowance.
    pub skewed_timestamps: u64,
}

impl Default for SyncStats {
    fn default() -> (stats: Self)
        ensures
            stats == (SyncStats { skewed_timestamps: 0 }),
    {
        SyncStats { skewed_timestamps: 0 }
    }
}

/// What a sync session is doing.
#[derive(Clone, Debug)]
pub enum SyncStatus {
    /// Nothing.
    Idle,
    /// Exchanging changes.
    Syncing,
    /// Stopped, or retrying, after this failure.
    Error(String),
}

/// An answer from another identity is never taken as an answer, whatever it says.
pub proof fn law_foreign_reply_refused<T>(reply: WireReply<T>, expected: InstanceId)
    requires
        reply.responder != expected,
    ensures
        reply.outcome(expected) == Err::<T, SyncError>(
            SyncError::PeerChanged { expected, responder: reply.responder },
        ),
{
}

} // verus!
