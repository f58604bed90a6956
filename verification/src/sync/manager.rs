//! A sync session with one peer.
//!
//! The session decides; the caller exchanges messages, applies changes and stores
//! cursors. Three machines drive it: one cycle of pull and push ([`Cycle`]), a
//! one-shot catch-up ([`CatchUp`]), and the background loop
//! ([`BackgroundLoop`]).

use vstd::prelude::*;
use std::collections::BTreeSet;
use vstd::string::StringExecFns;

use crate::model::SyncCursor;
use crate::sync::applier::ApplyResult;
use crate::sync::config::{SyncConfig, SyncDirection};
use crate::sync::error::SyncError;
use crate::sync::progress::next_progress;
use crate::sync::pusher::{tighter_budget, PushOutcome};
use crate::sync::server::to_host_size;
use crate::sync::types::{
    HandshakeRequest, HandshakeResponse, PullPage, PullRequest, SyncPosition, SyncStats, SyncStatus,
    WireReply,
};
use crate::sync::wire::MIN_CONTROL_FRAME_BYTES;
use crate::sync::{SYNC_CAPABILITY_GCOUNTER_APPLICATIONS, SYNC_PROTOCOL_VERSION};
use crate::text::decimal_text;
use crate::types::{CollectiveId, InstanceId};

verus! {

/// What a session knows about its peer. Both parts come from the same handshake.
#[derive(Clone, Copy, Debug, PartialEq, Eq, Structural)]
pub struct PeerBinding {
    /// Who the peer is; cursors are filed under it.
    pub identity: InstanceId,
    /// Most bytes of a body the peer accepts.
    pub receive_budget: usize,
}

// ---------------------------------------------------------------------------
// Handshake
// ---------------------------------------------------------------------------

/// The handshake this instance opens with.
pub fn handshake_request(local_instance_id: InstanceId) -> (request: HandshakeRequest)
    ensures
        request.instance_id == local_instance_id,
        request.protocol_version == SYNC_PROTOCOL_VERSION,
        request.capabilities@.len() == 3,
        request.capabilities@[0]@ == "push"@,
        request.capabilities@[1]@ == "pull"@,
        request.capabilities@[2]@ == SYNC_CAPABILITY_GCOUNTER_APPLICATIONS@,
{
    let mut capabilities: Vec<String> = Vec::new();
    capabilities.push(String::from_str("push"));
    capabilities.push(String::from_str("pull"));
    capabilities.push(String::from_str(SYNC_CAPABILITY_GCOUNTER_APPLICATIONS));
    HandshakeRequest {
        instance_id: local_instance_id,
        protocol_version: SYNC_PROTOCOL_VERSION,
        capabilities,
    }
}

/// Whether a handshake's answer opens a session.
pub open spec fn opens_session(response: HandshakeResponse) -> bool {
    &&& response.protocol_version == SYNC_PROTOCOL_VERSION
    &&& response.accepted
    &&& response.receive_limit_bytes >= MIN_CONTROL_FRAME_BYTES
}

/// What is said of a peer that accepts too little.
pub open spec fn small_peer(response: HandshakeResponse) -> Seq<char> {
    "peer "@ + crate::types::uuid_chars(response.instance_id.value as nat) + " advertises a "@
        + crate::text::decimal(crate::sync::server::host_size(response.receive_limit_bytes) as nat)
        + "-byte inbound limit, below the 1024-byte control minimum"@
}

/// Whether `e` is what a handshake's answer that opens no session is reported as.
pub open spec fn is_handshake_fault(response: HandshakeResponse, e: SyncError) -> bool {
    if response.protocol_version != SYNC_PROTOCOL_VERSION {
        e == (SyncError::ProtocolVersion {
            local: SYNC_PROTOCOL_VERSION,
            remote: response.protocol_version,
        })
    } else if !response.accepted {
        e matches SyncError::Handshake(m) && m@ == match response.reason {
            Some(text) => text@,
            None => "rejected"@,
        }
    } else {
        e matches SyncError::Handshake(m) && m@ == small_peer(response)
    }
}

/// Judges the answer to a handshake. The protocol version comes first, so that a
/// peer of another version is reported as such and not by its own reason text.
pub fn handshake_with(response: HandshakeResponse) -> (binding: Result<PeerBinding, SyncError>)
    ensures
        binding is Ok <==> opens_session(response),
        binding matches Ok(b) ==> b == (PeerBinding {
            identity: response.instance_id,
            receive_budget: crate::sync::server::host_size(response.receive_limit_bytes),
        }),
        binding matches Err(e) ==> is_handshake_fault(response, e),
{
    if response.protocol_version != SYNC_PROTOCOL_VERSION {
        return Err(
            SyncError::ProtocolVersion {
                local: SYNC_PROTOCOL_VERSION,
                remote: response.protocol_version,
            },
        );
    }
    if !response.accepted {
        let reason = match response.reason {
            Some(text) => text,
            None => String::from_str("rejected"),
        };
        return Err(SyncError::Handshake(reason));
    }
    let receive_budget: usize = to_host_size(response.receive_limit_bytes);
    if receive_budget < MIN_CONTROL_FRAME_BYTES {
        let mut s = String::from_str("peer ");
        s.append(response.instance_id.to_string().as_str());
        s.append(" advertises a ");
        s.append(decimal_text(receive_budget as u64).as_str());
        s.append("-byte inbound limit, below the 1024-byte control minimum");
        return Err(SyncError::Handshake(s));
    }
    Ok(PeerBinding { identity: response.instance_id, receive_budget })
}

// ---------------------------------------------------------------------------
// Cursors
// ---------------------------------------------------------------------------

/// The cursor on record for a peer, or the failure to read it.
pub type LoadedCursor = Result<Option<SyncCursor>, String>;

/// Where pushing to a peer resumes: at the start of the log for one without a
/// cursor on record.
pub fn load_push_sequence(loaded: LoadedCursor) -> (sequence: Result<u64, SyncError>)
    ensures
        match loaded {
            Ok(Some(c)) => sequence == Ok::<u64, SyncError>(c.push_sequence),
            Ok(None) => sequence == Ok::<u64, SyncError>(0),
            Err(t) => sequence matches Err(SyncError::Transport(m)) && m@
                == "Failed to load cursor: "@ + t@,
        },
{
    match loaded {
        Ok(Some(cursor)) => Ok(cursor.push_sequence),
        Ok(None) => Ok(0),
        Err(text) => Err(
            SyncError::Transport(crate::text::join("Failed to load cursor: ", text.as_str())),
        ),
    }
}

/// Where pulling from a peer resumes: at the start of its log for one without a
/// cursor on record.
pub fn load_pull_sequence(loaded: LoadedCursor) -> (sequence: Result<u64, SyncError>)
    ensures
        match loaded {
            Ok(Some(c)) => sequence == Ok::<u64, SyncError>(c.pull_sequence),
            Ok(None) => sequence == Ok::<u64, SyncError>(0),
            Err(t) => sequence matches Err(SyncError::Transport(m)) && m@
                == "Failed to load cursor: "@ + t@,
        },
{
    match loaded {
        Ok(Some(cursor)) => Ok(cursor.pull_sequence),
        Ok(None) => Ok(0),
        Err(text) => Err(
            SyncError::Transport(crate::text::join("Failed to load cursor: ", text.as_str())),
        ),
    }
}

/// The cursor to store for a pull position, under the identity the position names.
/// The push side stays as it is on record.
pub fn save_pull_position(found: Option<SyncCursor>, position: &SyncPosition) -> (cursor: SyncCursor)
    ensures
        cursor == (SyncCursor {
            instance_id: position.instance_id,
            push_sequence: match found {
                Some(c) => c.push_sequence,
                None => 0,
            },
            pull_sequence: position.sequence,
        }),
{
    let push_sequence: u64 = match found {
        Some(c) => c.push_sequence,
        None => 0,
    };
    SyncCursor {
        instance_id: position.instance_id,
        push_sequence,
        pull_sequence: position.sequence,
    }
}

/// The cursor to store for a push position. The pull side stays as it is on record.
pub fn save_push_cursor(found: Option<SyncCursor>, peer: InstanceId, sequence: u64) -> (cursor:
    SyncCursor)
    ensures
        cursor == (SyncCursor {
            instance_id: peer,
            push_sequence: sequence,
            pull_sequence: match found {
                Some(c) => c.pull_sequence,
                None => 0,
            },
        }),
{
    let pull_sequence: u64 = match found {
        Some(c) => c.pull_sequence,
        None => 0,
    };
    SyncCursor { instance_id: peer, push_sequence: sequence, pull_sequence }
}

// ---------------------------------------------------------------------------
// Pulling
// ---------------------------------------------------------------------------

/// Most bytes of an answer: what this instance accepts and its transport reads.
pub fn reply_limit_bytes(config: &SyncConfig, transport_limit: usize) -> (n: u64)
    ensures
        n == crate::sync::pusher::tighter(config.max_request_bytes, transport_limit),
{
    tighter_budget(config.max_request_bytes, transport_limit) as u64
}

/// Most bytes of a request to the bound peer.
pub fn send_budget(config: &SyncConfig, binding: &PeerBinding) -> (n: usize)
    ensures
        n == crate::sync::pusher::tighter(config.max_request_bytes, binding.receive_budget),
{
    tighter_budget(config.max_request_bytes, binding.receive_budget)
}

/// A copy of a collective filter.
fn copy_filter(filter: &Option<Vec<CollectiveId>>) -> (copy: Option<Vec<CollectiveId>>)
    ensures
        copy is Some <==> filter is Some,
        *filter matches Some(ids) ==> (copy matches Some(c) && c@ == ids@),
{
    match filter {
        None => None,
        Some(ids) => {
            let mut c: Vec<CollectiveId> = Vec::new();
            let mut i: usize = 0;
            while i < ids.len()
                invariant
                    i <= ids@.len(),
                    c@ == ids@.take(i as int),
                decreases ids@.len() - i,
            {
                c.push(ids[i]);
                i = i + 1;
                assert(c@ =~= ids@.take(i as int));
            }
            assert(c@ =~= ids@);
            Some(c)
        },
    }
}

/// The pull addressed to the bound peer, from position `from` on.
pub fn pull_request(
    config: &SyncConfig,
    local_id: InstanceId,
    binding: &PeerBinding,
    from: u64,
    transport_limit: usize,
) -> (request: PullRequest)
    ensures
        request.protocol_version == SYNC_PROTOCOL_VERSION,
        request.source_instance == local_id,
        request.target_instance == binding.identity,
        request.cursor == (SyncPosition { instance_id: binding.identity, sequence: from }),
        request.batch_size == config.batch_size,
        request.reply_limit_bytes == crate::sync::pusher::tighter(
            config.max_request_bytes,
            transport_limit,
        ),
        request.collectives is Some <==> config.collectives is Some,
        config.collectives matches Some(ids) ==> (request.collectives matches Some(c) && c@ == ids@),
{
    PullRequest {
        protocol_version: SYNC_PROTOCOL_VERSION,
        source_instance: local_id,
        target_instance: binding.identity,
        cursor: SyncPosition::new(binding.identity, from),
        batch_size: config.batch_size as u64,
        reply_limit_bytes: reply_limit_bytes(config, transport_limit),
        collectives: copy_filter(&config.collectives),
    }
}

/// The position change `i` of a page must lie behind.
pub open spec fn floor(page: PullPage, from: u64, i: int) -> u64 {
    if i == 0 {
        from
    } else {
        page.changes@[i - 1].sequence
    }
}

/// Whether change `i` of a page makes it untrustworthy: another source, or out of
/// order or range.
pub open spec fn misplaced(page: PullPage, peer: InstanceId, from: u64, i: int) -> bool {
    ||| page.changes@[i].source_instance != peer
    ||| page.changes@[i].sequence <= floor(page, from, i)
    ||| page.changes@[i].sequence > page.scan_position.sequence
}

/// Whether the page as a whole answers what was asked.
pub open spec fn page_header_fits(
    page: PullPage,
    peer: InstanceId,
    from: u64,
    batch_size: usize,
) -> bool {
    &&& page.scan_position.instance_id == peer
    &&& page.scan_position.sequence >= from
    &&& page.changes@.len() <= batch_size
}

/// Whether a page answers what was asked of `peer` from position `from` on.
pub open spec fn page_fits(
    page: PullPage,
    peer: InstanceId,
    from: u64,
    batch_size: usize,
) -> bool {
    &&& page_header_fits(page, peer, from, batch_size)
    &&& forall|i: int|
        #![trigger page.changes@[i]]
        0 <= i < page.changes@.len() ==> !misplaced(page, peer, from, i)
}

/// What is said of a page that does not answer what was asked.
pub open spec fn header_fault(
    page: PullPage,
    peer: InstanceId,
    from: u64,
    batch_size: usize,
) -> Seq<char> {
    if page.scan_position.instance_id != peer {
        "pull page reports a scan position owned by "@ + crate::types::uuid_chars(
            page.scan_position.instance_id.value as nat,
        ) + " but "@ + crate::types::uuid_chars(peer.value as nat) + " was addressed"@
    } else if page.scan_position.sequence < from {
        "pull page scan position "@ + crate::text::decimal(page.scan_position.sequence as nat)
            + " is below the requested "@ + crate::text::decimal(from as nat)
    } else {
        "pull page returned "@ + crate::text::decimal(page.changes@.len()) + " changes for a batch of "@
            + crate::text::decimal(batch_size as nat)
    }
}

/// What is said of a page whose first misplaced change is `i`.
pub open spec fn change_fault(page: PullPage, peer: InstanceId, from: u64, i: int) -> Seq<char> {
    let change = page.changes@[i];
    if change.source_instance != peer {
        "pulled change "@ + crate::text::decimal(change.sequence as nat) + " claims source "@
            + crate::types::uuid_chars(change.source_instance.value as nat) + " but "@
            + crate::types::uuid_chars(peer.value as nat) + " was addressed"@
    } else {
        "pulled change "@ + crate::text::decimal(change.sequence as nat)
            + " is out of the requested range ("@ + crate::text::decimal(
            floor(page, from, i) as nat,
        ) + ", "@ + crate::text::decimal(page.scan_position.sequence as nat) + "]"@
    }
}

/// Whether `i` is the first misplaced change.
pub open spec fn first_misplaced(page: PullPage, peer: InstanceId, from: u64, i: int) -> bool {
    &&& 0 <= i < page.changes@.len()
    &&& misplaced(page, peer, from, i)
    &&& forall|j: int|
        #![trigger page.changes@[j]]
        0 <= j < i ==> !misplaced(page, peer, from, j)
}

/// Refuses a page that does not answer what was asked, before anything of it is
/// applied.
pub fn validate_page(page: &PullPage, peer: InstanceId, from: u64, batch_size: usize) -> (r: Result<
    (),
    SyncError,
>)
    ensures
        r is Ok <==> page_fits(*page, peer, from, batch_size),
        r matches Err(e) ==> (e matches SyncError::InvalidPayload(m) && if page_header_fits(
            *page,
            peer,
            from,
            batch_size,
        ) {
            exists|i: int|
                #[trigger] first_misplaced(*page, peer, from, i) && m@ == change_fault(
                    *page,
                    peer,
                    from,
                    i,
                )
        } else {
            m@ == header_fault(*page, peer, from, batch_size)
        }),
{
    if page.scan_position.instance_id != peer {
        let mut s = String::from_str("pull page reports a scan position owned by ");
        s.append(page.scan_position.instance_id.to_string().as_str());
        s.append(" but ");
        s.append(peer.to_string().as_str());
        s.append(" was addressed");
        return Err(SyncError::InvalidPayload(s));
    }
    if page.scan_position.sequence < from {
        let mut s = String::from_str("pull page scan position ");
        s.append(decimal_text(page.scan_position.sequence).as_str());
        s.append(" is below the requested ");
        s.append(decimal_text(from).as_str());
        return Err(SyncError::InvalidPayload(s));
    }
    if page.changes.len() > batch_size {
        let mut s = String::from_str("pull page returned ");
        s.append(decimal_text(page.changes.len() as u64).as_str());
        s.append(" changes for a batch of ");
        s.append(decimal_text(batch_size as u64).as_str());
        return Err(SyncError::InvalidPayload(s));
    }
    let mut previous: u64 = from;
    let mut i: usize = 0;
    while i < page.changes.len()
        invariant
            i <= page.changes@.len(),
            page_header_fits(*page, peer, from, batch_size),
            previous == floor(*page, from, i as int),
            forall|j: int|
                #![trigger page.changes@[j]]
                0 <= j < i ==> !misplaced(*page, peer, from, j),
        decreases page.changes@.len() - i,
    {
        let sequence: u64 = page.changes[i].sequence;
        let source = page.changes[i].source_instance;
        if source != peer {
            assert(first_misplaced(*page, peer, from, i as int));
            let mut s = String::from_str("pulled change ");
            s.append(decimal_text(sequence).as_str());
            s.append(" claims source ");
            s.append(source.to_string().as_str());
            s.append(" but ");
            s.append(peer.to_string().as_str());
            s.append(" was addressed");
            return Err(SyncError::InvalidPayload(s));
        }
        if sequence <= previous || sequence > page.scan_position.sequence {
            assert(first_misplaced(*page, peer, from, i as int));
            let mut s = String::from_str("pulled change ");
            s.append(decimal_text(sequence).as_str());
            s.append(" is out of the requested range (");
            s.append(decimal_text(previous).as_str());
            s.append(", ");
            s.append(decimal_text(page.scan_position.sequence).as_str());
            s.append("]");
            return Err(SyncError::InvalidPayload(s));
        }
        previous = sequence;
        i = i + 1;
    }
    Ok(())
}

/// Whether `r` is what the answer to a pull comes to.
pub open spec fn is_pulled_page(
    reply: Result<WireReply<PullPage>, SyncError>,
    peer: InstanceId,
    from: u64,
    batch_size: usize,
    r: Result<PullPage, SyncError>,
) -> bool {
    match reply {
        Err(e) => r == Err::<PullPage, SyncError>(e),
        Ok(answer) => match answer.outcome(peer) {
            Err(e) => r == Err::<PullPage, SyncError>(e),
            Ok(page) => if page_fits(page, peer, from, batch_size) {
                r == Ok::<PullPage, SyncError>(page)
            } else {
                r matches Err(SyncError::InvalidPayload(m)) && if page_header_fits(
                    page,
                    peer,
                    from,
                    batch_size,
                ) {
                    exists|i: int|
                        #[trigger] first_misplaced(page, peer, from, i) && m@ == change_fault(
                            page,
                            peer,
                            from,
                            i,
                        )
                } else {
                    m@ == header_fault(page, peer, from, batch_size)
                }
            },
        },
    }
}

/// Judges the answer to a pull from position `from`: who answered, then whether the
/// page answers what was asked.
pub fn pull_page(
    reply: Result<WireReply<PullPage>, SyncError>,
    config: &SyncConfig,
    binding: &PeerBinding,
    from: u64,
) -> (page: Result<PullPage, SyncError>)
    ensures
        is_pulled_page(reply, binding.identity, from, config.batch_size, page),
{
    let answer = match reply {
        Ok(answer) => answer,
        Err(e) => {
            return Err(e);
        },
    };
    let page = match answer.into_result(binding.identity) {
        Ok(page) => page,
        Err(e) => {
            return Err(e);
        },
    };
    match validate_page(&page, binding.identity, from, config.batch_size) {
        Ok(_) => Ok(page),
        Err(e) => Err(e),
    }
}

/// Where the pull position moves after a page that scanned through `scanned` and
/// was applied as `result`, or held no change.
pub open spec fn pulled_to(from: u64, scanned: u64, result: Option<ApplyResult>) -> u64 {
    match result {
        Some(r) => crate::sync::progress::progress(from, scanned, r.failed as nat, r.safe_through),
        None => crate::sync::progress::progress(from, scanned, 0, None),
    }
}

/// The position to store after one pull, under the identity that was asked. It is
/// stored after every pull, an empty one included, so that the peer is on record.
pub fn pull_step(
    binding: &PeerBinding,
    from: u64,
    scanned: u64,
    result: &Option<ApplyResult>,
    stats: &mut SyncStats,
) -> (position: SyncPosition)
    ensures
        position == (SyncPosition {
            instance_id: binding.identity,
            sequence: pulled_to(from, scanned, *result),
        }),
        final(stats).skewed_timestamps as nat == match *result {
            Some(r) => if old(stats).skewed_timestamps + r.skewed_timestamps > u64::MAX {
                u64::MAX as nat
            } else {
                (old(stats).skewed_timestamps + r.skewed_timestamps) as nat
            },
            None => old(stats).skewed_timestamps as nat,
        },
{
    let next: u64 = match result {
        Some(r) => {
            r.record_into(stats);
            next_progress(from, scanned, r.failed, r.safe_through)
        },
        None => next_progress(from, scanned, 0, None),
    };
    SyncPosition::new(binding.identity, next)
}

/// A page that answers what was asked holds changes of the asked peer only, each
/// behind the one before, none beyond what was scanned.
pub proof fn law_accepted_page_is_ordered(
    page: PullPage,
    peer: InstanceId,
    from: u64,
    batch_size: usize,
    i: int,
    j: int,
)
    requires
        page_fits(page, peer, from, batch_size),
        0 <= i < j < page.changes@.len(),
    ensures
        page.changes@[i].source_instance == peer,
        from < page.changes@[i].sequence < page.changes@[j].sequence
            <= page.scan_position.sequence,
    decreases j,
{
    assert(!misplaced(page, peer, from, j));
    assert(!misplaced(page, peer, from, i));
    if i > 0 {
        law_accepted_page_is_ordered(page, peer, from, batch_size, 0, i);
    }
    if i < j - 1 {
        law_accepted_page_is_ordered(page, peer, from, batch_size, i, j - 1);
    }
}

/// What a peer serves of its own log is accepted by the one that asked: the page
/// passes the requester's validation, whatever the requester's filter drops.
pub proof fn law_served_page_is_accepted(
    server: crate::sync::server::SyncServer,
    request: PullRequest,
    events: Seq<crate::sync::batch::LogCandidate>,
    base: usize,
    n: int,
    reply: WireReply<PullPage>,
    page: PullPage,
)
    requires
        server.is_pull_answer(
            request,
            crate::sync::server::screened(events, request.collectives),
            base,
            n,
            Ok::<WireReply<PullPage>, SyncError>(reply),
        ),
        reply.result == crate::sync::types::WireResult::Served(page),
        crate::sync::server::ascending(events, request.cursor.sequence),
        crate::sync::batch::authored(events, server.instance_id),
    ensures
        page_fits(
            page,
            server.instance_id,
            request.cursor.sequence,
            crate::sync::server::host_size(request.batch_size),
        ),
{
    let from = request.cursor.sequence;
    let peer = server.instance_id;
    let candidates = crate::sync::server::screened(events, request.collectives);
    assert(crate::sync::server::ascending(candidates, from)) by {
        assert(forall|i: int|
            #![trigger candidates[i]]
            0 <= i < candidates.len() ==> candidates[i].sequence == events[i].sequence);
    }
    assert(crate::sync::batch::authored(candidates, peer)) by {
        assert forall|i: int| #![trigger candidates[i]] 0 <= i < candidates.len() implies (
        candidates[i].change matches Ok(Some(change)) ==> change.sequence == candidates[i].sequence
            && change.source_instance == peer) by {
            assert(candidates[i] == crate::sync::server::screened_one(
                events[i],
                request.collectives,
            ));
        }
    }
    crate::sync::batch::law_sent_changes_run(candidates, n, peer, from);
    crate::sync::server::lemma_page_count(
        candidates,
        n,
        base,
        from,
        server.reply_budget(request.reply_limit_bytes),
        crate::sync::server::host_size(request.batch_size),
    );
    assert(crate::sync::batch::runs(page.changes@, peer, from, page.scan_position.sequence));
}

// ---------------------------------------------------------------------------
// Identity changes
// ---------------------------------------------------------------------------

/// What is said of a peer whose identity changed twice during one `activity`.
pub open spec fn flapping_text(
    activity: Seq<char>,
    bound: InstanceId,
    observed: InstanceId,
) -> Seq<char> {
    "peer identity changed twice during one "@ + activity + " (bound "@ + crate::types::uuid_chars(
        bound.value as nat,
    ) + ", now "@ + crate::types::uuid_chars(observed.value as nat)
        + "); refusing to keep re-establishing"@
}

/// The failure for a peer whose identity changed twice during one `activity`.
pub fn flapping(activity: &str, bound: InstanceId, observed: InstanceId) -> (e: SyncError)
    ensures
        e matches SyncError::Handshake(m) && m@ == flapping_text(activity@, bound, observed),
{
    let mut s = String::from_str("peer identity changed twice during one ");
    s.append(activity);
    s.append(" (bound ");
    s.append(bound.to_string().as_str());
    s.append(", now ");
    s.append(observed.to_string().as_str());
    s.append("); refusing to keep re-establishing");
    SyncError::Handshake(s)
}

// ---------------------------------------------------------------------------
// Catch-up
// ---------------------------------------------------------------------------

/// A page of a catch-up, once its changes were applied.
#[derive(Clone, Debug)]
pub struct AppliedPage {
    /// Changes on the page.
    pub count: usize,
    /// How far the peer scanned.
    pub scanned: u64,
    /// Whether the peer has more.
    pub has_more: bool,
    /// What became of the changes; nothing where there were none.
    pub result: Option<ApplyResult>,
}

/// A one-shot catch-up with a peer.
#[derive(Debug)]
pub struct CatchUp {
    /// The peer.
    pub binding: PeerBinding,
    /// The position reached in the peer's log.
    pub position: u64,
    /// Changes pulled so far, saturating.
    pub total_pulled: usize,
    /// Sequences of the changes that failed at some attempt.
    pub failed_sequences: BTreeSet<u64>,
    /// Whether the run stopped without moving although the peer had more.
    pub stalled_with_more: bool,
    /// How often the peer's identity may still change.
    pub rebinds_left: u32,
}

/// How a catch-up goes on after a pull failed.
#[derive(Debug)]
pub enum CatchUpStep {
    /// Shake hands again, then restart from the new peer's own position.
    Rebind,
    /// The catch-up is over.
    Over(SyncError),
}

/// What a page leaves of a catch-up.
pub ghost struct CatchUpView {
    /// The position reached.
    pub position: u64,
    /// Sequences that failed at some attempt.
    pub failed: Set<u64>,
    /// Whether it stopped without moving although the peer had more.
    pub stalled: bool,
}

/// Sequences that failed on a page.
pub open spec fn page_failures(page: AppliedPage) -> Set<u64> {
    match page.result {
        Some(r) => r.failed_sequences@.to_set(),
        None => Set::empty(),
    }
}

/// A catch-up after one more page.
pub open spec fn after_page(v: CatchUpView, page: AppliedPage) -> CatchUpView {
    let next = pulled_to(v.position, page.scanned, page.result);
    CatchUpView {
        position: next,
        failed: v.failed.union(page_failures(page)),
        stalled: if next <= v.position {
            page.has_more
        } else {
            v.stalled
        },
    }
}

/// Whether a catch-up asks for another page: the last one moved it, and the peer
/// has more.
pub open spec fn goes_on(v: CatchUpView, page: AppliedPage) -> bool {
    pulled_to(v.position, page.scanned, page.result) > v.position && page.has_more
}

/// Failed sequences that no later attempt settled: the position is inclusive, so
/// those beyond it.
pub open spec fn unresolved(failed: Set<u64>, position: u64) -> Set<u64> {
    failed.filter(|f: u64| f > position)
}

/// How many failed sequences lie beyond `position`.
fn count_unresolved(failed: &BTreeSet<u64>, position: u64) -> (n: usize)
    ensures
        n as nat == unresolved(failed@, position).len(),
        failed@.finite(),
{
    proof {
        crate::sync::batch::lemma_sequences_obey_order();
    }
    let total: usize = failed.len();
    let entries = failed.iter();
    let ghost keys: Seq<&u64> = vstd::std_specs::iter::IteratorSpec::remaining(&entries);
    let ghost mut beyond: Set<u64> = Set::empty();
    let ghost mut k: int = 0;
    proof {
        assert(keys.unref().to_set() == failed@);
        vstd::seq_lib::seq_to_set_is_finite(keys.unref());
        assert forall|i: int| #![trigger keys[i]] 0 <= i < keys.len() implies failed@.contains(
            *keys[i],
        ) by {
            assert(keys.unref()[i] == *keys[i]);
            assert(keys.unref().contains(*keys[i]));
        }
    }
    let mut n: usize = 0;
    for entry in it: entries
        invariant
            it.seq() == keys,
            k == it.index(),
            keys.no_duplicates(),
            failed@.finite(),
            failed@.len() == total,
            beyond.finite(),
            n as nat == beyond.len(),
            beyond.subset_of(failed@),
            forall|i: int| #![trigger keys[i]] 0 <= i < keys.len() ==> failed@.contains(*keys[i]),
            forall|f: u64| #[trigger]
                beyond.contains(f) <==> f > position && (exists|i: int|
                    #![trigger keys[i]]
                    0 <= i < k && *keys[i] == f),
    {
        let sequence: u64 = *entry;
        let ghost before = beyond;
        proof {
            assert(*keys[k] == sequence);
            if before.contains(sequence) {
                let i = choose|i: int| #![trigger keys[i]] 0 <= i < k && *keys[i] == sequence;
                assert(keys[i] == keys[k]);
            }
        }
        if sequence > position {
            proof {
                beyond = beyond.insert(sequence);
                vstd::set_lib::lemma_len_subset(beyond, failed@);
            }
            n = n + 1;
        }
        proof {
            k = k + 1;
            assert forall|f: u64| #[trigger]
                beyond.contains(f) <==> f > position && (exists|i: int|
                    #![trigger keys[i]]
                    0 <= i < k && *keys[i] == f) by {
                if before.contains(f) {
                    let i = choose|i: int| #![trigger keys[i]] 0 <= i < k - 1 && *keys[i] == f;
                    assert(*keys[i] == f);
                }
                if f == sequence {
                    assert(*keys[k - 1] == f);
                }
            }
        }
    }
    proof {
        assert forall|f: u64| beyond.contains(f) <==> unresolved(failed@, position).contains(f) by {
            if failed@.contains(f) {
                assert(keys.unref().contains(f));
                let i = choose|i: int| 0 <= i < keys.unref().len() && keys.unref()[i] == f;
                assert(*keys[i] == f);
            }
        }
        assert(beyond =~= unresolved(failed@, position));
    }
    n
}

impl CatchUp {
    /// What the catch-up has come to.
    pub open spec fn spec_view(self) -> CatchUpView {
        CatchUpView {
            position: self.position,
            failed: self.failed_sequences@,
            stalled: self.stalled_with_more,
        }
    }

    /// A catch-up with a peer, from a stored position on. The peer's identity may
    /// change once.
    pub fn new(binding: PeerBinding, position: u64) -> (run: Self)
        ensures
            run.binding == binding,
            run.total_pulled == 0,
            run.rebinds_left == 1,
            run.spec_view() == (CatchUpView { position, failed: Set::empty(), stalled: false }),
    {
        CatchUp {
            binding,
            position,
            total_pulled: 0,
            failed_sequences: BTreeSet::new(),
            stalled_with_more: false,
            rebinds_left: 1,
        }
    }

    /// Takes note of a pull that failed. A changed identity is followed once;
    /// every other failure ends the catch-up.
    pub fn page_failed(&mut self, e: SyncError) -> (step: CatchUpStep)
        ensures
            final(self).spec_view() == old(self).spec_view(),
            final(self).binding == old(self).binding,
            final(self).total_pulled == old(self).total_pulled,
            match e {
                SyncError::PeerChanged { responder, .. } => if old(self).rebinds_left == 0 {
                    final(self).rebinds_left == 0 && (step matches CatchUpStep::Over(
                        SyncError::Handshake(m),
                    ) && m@ == flapping_text(
                        "initial_sync"@,
                        old(self).binding.identity,
                        responder,
                    ))
                } else {
                    final(self).rebinds_left == old(self).rebinds_left - 1 && step
                        is Rebind
                },
                _ => final(self).rebinds_left == old(self).rebinds_left && step
                    == CatchUpStep::Over(e),
            },
    {
        match e {
            SyncError::PeerChanged { responder, .. } => {
                if self.rebinds_left == 0 {
                    return CatchUpStep::Over(
                        flapping("initial_sync", self.binding.identity, responder),
                    );
                }
                self.rebinds_left = self.rebinds_left - 1;
                CatchUpStep::Rebind
            },
            other => CatchUpStep::Over(other),
        }
    }

    /// Restarts with a new peer, from its own stored position. Failures recorded so
    /// far name sequences of the old peer's log and are dropped.
    pub fn rebound(&mut self, binding: PeerBinding, position: u64)
        ensures
            final(self).binding == binding,
            final(self).spec_view() == (CatchUpView {
                position,
                failed: Set::empty(),
                stalled: false,
            }),
            final(self).total_pulled == old(self).total_pulled,
            final(self).rebinds_left == old(self).rebinds_left,
    {
        self.binding = binding;
        self.position = position;
        self.failed_sequences = BTreeSet::new();
        self.stalled_with_more = false;
    }

    /// Takes note of a page that was applied. Returns the position to store, and
    /// whether to ask for another page.
    pub fn page_applied(&mut self, page: &AppliedPage, stats: &mut SyncStats) -> (step: (
        SyncPosition,
        bool,
    ))
        ensures
            final(self).binding == old(self).binding,
            final(self).rebinds_left == old(self).rebinds_left,
            final(self).total_pulled == crate::sync::wire::saturated(
                (old(self).total_pulled + page.count) as nat,
            ),
            final(self).spec_view() == after_page(old(self).spec_view(), *page),
            step.0 == (SyncPosition {
                instance_id: old(self).binding.identity,
                sequence: after_page(old(self).spec_view(), *page).position,
            }),
            step.1 == goes_on(old(self).spec_view(), *page),
            final(stats).skewed_timestamps as nat == match page.result {
                Some(r) => if old(stats).skewed_timestamps + r.skewed_timestamps > u64::MAX {
                    u64::MAX as nat
                } else {
                    (old(stats).skewed_timestamps + r.skewed_timestamps) as nat
                },
                None => old(stats).skewed_timestamps as nat,
            },
    {
        let requested: u64 = self.position;
        let ghost before = self.failed_sequences@;
        let position = pull_step(&self.binding, requested, page.scanned, &page.result, stats);
        if let Some(result) = &page.result {
            let mut i: usize = 0;
            while i < result.failed_sequences.len()
                invariant
                    page.result == Some(*result),
                    self.binding == old(self).binding,
                    self.position == old(self).position,
                    self.total_pulled == old(self).total_pulled,
                    self.stalled_with_more == old(self).stalled_with_more,
                    self.rebinds_left == old(self).rebinds_left,
                    i <= result.failed_sequences@.len(),
                    self.failed_sequences@ == before.union(
                        result.failed_sequences@.take(i as int).to_set(),
                    ),
                decreases result.failed_sequences@.len() - i,
            {
                let sequence: u64 = result.failed_sequences[i];
                let fresh = crate::sync::server::note_sequence(
                    &mut self.failed_sequences,
                    sequence,
                );
                i = i + 1;
                proof {
                    let now = result.failed_sequences@.take(i as int);
                    let then = result.failed_sequences@.take(i - 1);
                    assert(now =~= then.push(sequence));
                    lemma_push_to_set(then, sequence);
                    assert(self.failed_sequences@ =~= before.union(now.to_set()));
                }
            }
            proof {
                assert(result.failed_sequences@.take(i as int) =~= result.failed_sequences@);
            }
        }
        proof {
            assert(self.failed_sequences@ =~= before.union(page_failures(*page)));
        }
        self.total_pulled = self.total_pulled.saturating_add(page.count);
        self.position = position.sequence;
        if position.sequence <= requested {
            self.stalled_with_more = page.has_more;
            return (position, false);
        }
        (position, page.has_more)
    }

    /// What the catch-up came to. It is complete only where every change that
    /// failed was settled by a later attempt, and it did not stop short of what
    /// the peer had.
    pub fn conclude(&self) -> (r: Result<(), SyncError>)
        ensures
            r is Ok <==> is_complete(self.spec_view()),
            r matches Err(e) ==> (e matches SyncError::CatchUpIncomplete { peer, position, reason }
                && peer == self.binding.identity && position == self.position && reason@
                == incomplete_reason(self.spec_view())),
    {
        let outstanding: usize = count_unresolved(&self.failed_sequences, self.position);
        proof {
            lemma_unresolved_finite(self.failed_sequences@, self.position);
        }
        if outstanding > 0 {
            proof {
                let f = choose|f: u64| #[trigger]
                    self.failed_sequences@.contains(f) && f > self.position;
                assert(self.spec_view().failed.contains(f));
            }
            return Err(
                SyncError::catch_up_apply_failed(
                    self.binding.identity,
                    self.position,
                    outstanding,
                ),
            );
        }
        if self.stalled_with_more {
            return Err(SyncError::catch_up_stalled(self.binding.identity, self.position));
        }
        Ok(())
    }
}

proof fn lemma_push_to_set(s: Seq<u64>, x: u64)
    ensures
        s.push(x).to_set() == s.to_set().insert(x),
{
    let a = s.push(x).to_set();
    let b = s.to_set().insert(x);
    assert forall|y: u64| a.contains(y) <==> b.contains(y) by {
        if s.contains(y) {
            let i = choose|i: int| 0 <= i < s.len() && s[i] == y;
            assert(s.push(x)[i] == y);
        }
        if y == x {
            assert(s.push(x).last() == x);
        }
        if s.push(x).contains(y) && y != x {
            let i = choose|i: int| 0 <= i < s.push(x).len() && s.push(x)[i] == y;
            assert(s[i] == y);
        }
    }
    assert(a =~= b);
}

proof fn lemma_unresolved_finite(failed: Set<u64>, position: u64)
    requires
        failed.finite(),
    ensures
        unresolved(failed, position).len() == 0 <==> forall|f: u64| #[trigger]
            failed.contains(f) ==> f <= position,
{
    let open = unresolved(failed, position);
    assert(open.subset_of(failed));
    if open.len() == 0 {
        assert forall|f: u64| #[trigger] failed.contains(f) implies f <= position by {
            if f > position {
                assert(open.contains(f));
            }
        }
    } else {
        let f = open.choose();
        assert(open.contains(f));
        assert(failed.contains(f));
    }
}

/// Whether a catch-up is complete: nothing that failed is outstanding, and it did
/// not stop short.
pub open spec fn is_complete(v: CatchUpView) -> bool {
    &&& forall|f: u64| #[trigger] v.failed.contains(f) ==> f <= v.position
    &&& !v.stalled
}

/// Why a catch-up is not complete.
pub open spec fn incomplete_reason(v: CatchUpView) -> Seq<char> {
    if unresolved(v.failed, v.position).len() > 0 {
        crate::sync::error::apply_failed_reason(unresolved(v.failed, v.position).len())
    } else {
        crate::sync::error::stalled_reason()
    }
}

/// A catch-up after `pages`, from `start`.
pub open spec fn catch_up_run(start: CatchUpView, pages: Seq<AppliedPage>) -> CatchUpView
    decreases pages.len(),
{
    if pages.len() == 0 {
        start
    } else {
        after_page(catch_up_run(start, pages.drop_last()), pages.last())
    }
}

/// A catch-up never loses ground.
pub proof fn law_catch_up_never_retreats(start: CatchUpView, pages: Seq<AppliedPage>)
    ensures
        catch_up_run(start, pages).position >= start.position,
    decreases pages.len(),
{
    if pages.len() > 0 {
        law_catch_up_never_retreats(start, pages.drop_last());
    }
}

proof fn lemma_failures_are_remembered(start: CatchUpView, pages: Seq<AppliedPage>, i: int, f: u64)
    requires
        0 <= i < pages.len(),
        page_failures(pages[i]).contains(f),
    ensures
        catch_up_run(start, pages).failed.contains(f),
    decreases pages.len(),
{
    if i < pages.len() - 1 {
        assert(pages.drop_last()[i] == pages[i]);
        lemma_failures_are_remembered(start, pages.drop_last(), i, f);
    }
}

/// A catch-up that stopped and is complete did catch up: the last page was the
/// peer's last, and no change that failed at any attempt lies beyond the position
/// reached, so none was passed over.
pub proof fn law_complete_means_caught_up(
    start: CatchUpView,
    pages: Seq<AppliedPage>,
    i: int,
    f: u64,
)
    requires
        0 <= i < pages.len(),
        page_failures(pages[i]).contains(f),
        !goes_on(catch_up_run(start, pages.drop_last()), pages.last()),
        is_complete(catch_up_run(start, pages)),
    ensures
        !pages.last().has_more,
        f <= catch_up_run(start, pages).position,
{
    lemma_failures_are_remembered(start, pages, i, f);
    let before = catch_up_run(start, pages.drop_last());
    assert(catch_up_run(start, pages) == after_page(before, pages.last()));
}

/// A catch-up that stopped and is complete ended on the peer's last page.
pub proof fn law_complete_means_last_page(start: CatchUpView, pages: Seq<AppliedPage>)
    requires
        pages.len() > 0,
        !goes_on(catch_up_run(start, pages.drop_last()), pages.last()),
        is_complete(catch_up_run(start, pages)),
    ensures
        !pages.last().has_more,
{
    let before = catch_up_run(start, pages.drop_last());
    assert(catch_up_run(start, pages) == after_page(before, pages.last()));
}

/// A catch-up never asks the same question twice: it goes on only from a position
/// it had not reached before.
pub proof fn law_catch_up_advances(v: CatchUpView, page: AppliedPage)
    requires
        goes_on(v, page),
    ensures
        after_page(v, page).position > v.position,
{
}

// ---------------------------------------------------------------------------
// One cycle
// ---------------------------------------------------------------------------

/// What a cycle is waiting for.
#[derive(Clone, Copy, Debug, PartialEq, Eq, Structural)]
pub enum CyclePhase {
    /// The end of a pull.
    Pulling,
    /// The end of a push.
    Pushing,
    /// A new handshake.
    Rebinding,
    /// Nothing more.
    Over,
}

/// One pull and one push, as far as the direction asks for them.
#[derive(Clone, Copy, Debug, PartialEq, Eq, Structural)]
pub struct Cycle {
    /// The peer.
    pub binding: PeerBinding,
    /// Which way changes flow.
    pub direction: SyncDirection,
    /// How often the peer's identity may still change, pull and push together.
    pub rebinds_left: u32,
    /// What the cycle is waiting for.
    pub phase: CyclePhase,
}

/// What a step of a cycle reported.
#[derive(Debug)]
pub enum CycleEvent {
    /// A pull ended.
    Pulled(Result<(), SyncError>),
    /// A push ended.
    Pushed(Result<PushOutcome, SyncError>),
    /// A new handshake ended.
    Rebound(Result<PeerBinding, SyncError>),
}

/// What a cycle asks for next.
#[derive(Debug)]
pub enum CycleAction {
    /// Pull from the bound peer, from its stored position.
    Pull,
    /// Push to the bound peer, from its stored position.
    Push,
    /// Shake hands again.
    Handshake,
    /// The cycle is over.
    Finish(Result<(), SyncError>),
}

/// The first phase of a cycle.
pub open spec fn first_phase(direction: SyncDirection) -> CyclePhase {
    if direction.spec_pulls() {
        CyclePhase::Pulling
    } else {
        CyclePhase::Pushing
    }
}

/// The identity that answered in place of the bound one, if the event reports that.
pub open spec fn intruder(event: CycleEvent) -> Option<InstanceId> {
    match event {
        CycleEvent::Pulled(Err(SyncError::PeerChanged { responder, .. })) => Some(responder),
        CycleEvent::Pushed(Ok(PushOutcome::PeerChanged(responder))) => Some(responder),
        _ => None,
    }
}

/// The failure an event reports, other than a changed identity.
pub open spec fn cycle_fault(event: CycleEvent) -> Option<SyncError> {
    if intruder(event) is Some {
        None
    } else {
        match event {
            CycleEvent::Pulled(Err(e)) => Some(e),
            CycleEvent::Pushed(Err(e)) => Some(e),
            CycleEvent::Rebound(Err(e)) => Some(e),
            _ => None,
        }
    }
}

/// Whether an event answers what the cycle is waiting for.
pub open spec fn answers(phase: CyclePhase, event: CycleEvent) -> bool {
    match phase {
        CyclePhase::Pulling => event is Pulled,
        CyclePhase::Pushing => event is Pushed,
        CyclePhase::Rebinding => event is Rebound,
        CyclePhase::Over => false,
    }
}

/// Whether a phase is what an action waits for.
pub open spec fn awaits(phase: CyclePhase, action: CycleAction) -> bool {
    match action {
        CycleAction::Pull => phase == CyclePhase::Pulling,
        CycleAction::Push => phase == CyclePhase::Pushing,
        CycleAction::Handshake => phase == CyclePhase::Rebinding,
        CycleAction::Finish(_) => phase == CyclePhase::Over,
    }
}

/// Whether `after` and `action` are what follows `event` in `before`.
pub open spec fn is_cycle_step(
    before: Cycle,
    event: CycleEvent,
    after: Cycle,
    action: CycleAction,
) -> bool {
    &&& after.direction == before.direction
    &&& awaits(after.phase, action)
    &&& match (intruder(event), cycle_fault(event)) {
        (Some(responder), _) => {
            &&& after.binding == before.binding
            &&& if before.rebinds_left == 0 {
                after.rebinds_left == 0 && (action matches CycleAction::Finish(
                    Err(SyncError::Handshake(m)),
                ) && m@ == flapping_text("sync cycle"@, before.binding.identity, responder))
            } else {
                after.rebinds_left == before.rebinds_left - 1 && action is Handshake
            }
        },
        (None, Some(e)) => {
            &&& after.binding == before.binding
            &&& after.rebinds_left == before.rebinds_left
            &&& action == CycleAction::Finish(Err::<(), SyncError>(e))
        },
        (None, None) => {
            &&& after.rebinds_left == before.rebinds_left
            &&& match event {
                CycleEvent::Rebound(Ok(binding)) => after.binding == binding && after.phase
                    == first_phase(before.direction),
                CycleEvent::Pulled(_) => after.binding == before.binding && action == (
                if before.direction.spec_pushes() {
                    CycleAction::Push
                } else {
                    CycleAction::Finish(Ok::<(), SyncError>(()))
                }),
                _ => after.binding == before.binding && action == CycleAction::Finish(
                    Ok::<(), SyncError>(()),
                ),
            }
        },
    }
}

impl Cycle {
    /// Begins a cycle with the bound peer. Its identity may change once.
    pub fn start(binding: PeerBinding, direction: SyncDirection) -> (begun: (Self, CycleAction))
        ensures
            begun.0 == (Cycle { binding, direction, rebinds_left: 1, phase: first_phase(direction) }),
            keeps_direction(begun.0),
            awaits(begun.0.phase, begun.1),
    {
        if direction.pulls() {
            (
                Cycle { binding, direction, rebinds_left: 1, phase: CyclePhase::Pulling },
                CycleAction::Pull,
            )
        } else {
            (
                Cycle { binding, direction, rebinds_left: 1, phase: CyclePhase::Pushing },
                CycleAction::Push,
            )
        }
    }

    /// Follows a changed identity once, and gives up at the second change.
    fn identity_changed(&mut self, responder: InstanceId) -> (action: CycleAction)
        ensures
            final(self).direction == old(self).direction,
            final(self).binding == old(self).binding,
            awaits(final(self).phase, action),
            if old(self).rebinds_left == 0 {
                final(self).rebinds_left == 0 && (action matches CycleAction::Finish(
                    Err(SyncError::Handshake(m)),
                ) && m@ == flapping_text("sync cycle"@, old(self).binding.identity, responder))
            } else {
                final(self).rebinds_left == old(self).rebinds_left - 1 && action is Handshake
            },
    {
        if self.rebinds_left == 0 {
            self.phase = CyclePhase::Over;
            return CycleAction::Finish(
                Err(flapping("sync cycle", self.binding.identity, responder)),
            );
        }
        self.rebinds_left = self.rebinds_left - 1;
        self.phase = CyclePhase::Rebinding;
        CycleAction::Handshake
    }

    /// Ends the cycle.
    fn finish(&mut self, result: Result<(), SyncError>) -> (action: CycleAction)
        ensures
            *final(self) == (Cycle { phase: CyclePhase::Over, ..*old(self) }),
            action == CycleAction::Finish(result),
    {
        self.phase = CyclePhase::Over;
        CycleAction::Finish(result)
    }

    /// Advances the cycle. After a changed identity it restarts from the top with
    /// the new peer.
    pub fn run_sync_cycle(&mut self, event: CycleEvent) -> (action: CycleAction)
        ensures
            is_cycle_step(*old(self), event, *final(self), action),
    {
        match event {
            CycleEvent::Pulled(Ok(_)) => {
                if self.direction.pushes() {
                    self.phase = CyclePhase::Pushing;
                    CycleAction::Push
                } else {
                    self.finish(Ok(()))
                }
            },
            CycleEvent::Pulled(Err(SyncError::PeerChanged { responder, .. })) => {
                self.identity_changed(responder)
            },
            CycleEvent::Pulled(Err(e)) => self.finish(Err(e)),
            CycleEvent::Pushed(Ok(PushOutcome::Pushed(_))) => self.finish(Ok(())),
            CycleEvent::Pushed(Ok(PushOutcome::PeerChanged(responder))) => {
                self.identity_changed(responder)
            },
            CycleEvent::Pushed(Err(e)) => self.finish(Err(e)),
            CycleEvent::Rebound(Ok(binding)) => {
                self.binding = binding;
                if self.direction.pulls() {
                    self.phase = CyclePhase::Pulling;
                    CycleAction::Pull
                } else {
                    self.phase = CyclePhase::Pushing;
                    CycleAction::Push
                }
            },
            CycleEvent::Rebound(Err(e)) => self.finish(Err(e)),
        }
    }
}

/// Steps a cycle can still take.
pub open spec fn cycle_measure(cycle: Cycle) -> nat {
    match cycle.phase {
        CyclePhase::Over => 0,
        CyclePhase::Pushing => (4 * cycle.rebinds_left + 1) as nat,
        CyclePhase::Pulling => (4 * cycle.rebinds_left + 2) as nat,
        CyclePhase::Rebinding => (4 * cycle.rebinds_left + 3) as nat,
    }
}

/// A cycle ends: every awaited event brings it closer to its end, however often the
/// peer's identity changes.
pub proof fn law_cycle_ends(before: Cycle, event: CycleEvent, after: Cycle, action: CycleAction)
    requires
        answers(before.phase, event),
        is_cycle_step(before, event, after, action),
    ensures
        cycle_measure(after) < cycle_measure(before),
        action is Finish <==> after.phase == CyclePhase::Over,
{
}

/// Whether a cycle waits only for what its direction asks for.
pub open spec fn keeps_direction(cycle: Cycle) -> bool {
    &&& cycle.phase == CyclePhase::Pulling ==> cycle.direction.spec_pulls()
    &&& cycle.phase == CyclePhase::Pushing ==> cycle.direction.spec_pushes()
}

/// A cycle does what its direction asks for, in order: it succeeds only at the end
/// of its last step, a push comes behind a successful pull wherever pulls are asked
/// for, and its peer changes only by a handshake.
pub proof fn law_cycle_keeps_order(
    before: Cycle,
    event: CycleEvent,
    after: Cycle,
    action: CycleAction,
)
    requires
        keeps_direction(before),
        answers(before.phase, event),
        is_cycle_step(before, event, after, action),
    ensures
        keeps_direction(after),
        action == CycleAction::Finish(Ok::<(), SyncError>(())) ==> before.phase == (
        if before.direction.spec_pushes() {
            CyclePhase::Pushing
        } else {
            CyclePhase::Pulling
        }),
        action is Push && before.direction.spec_pulls() ==> (event matches CycleEvent::Pulled(r)
            && r is Ok),
        after.binding != before.binding ==> event is Rebound,
{
}

// ---------------------------------------------------------------------------
// The background loop
// ---------------------------------------------------------------------------

/// What ends a wait of the background loop.
#[derive(Debug)]
pub enum LoopEvent {
    /// The wait was over, and a cycle ran.
    CycleEnded {
        /// The peer the cycle ended with.
        binding: PeerBinding,
        /// How it ended.
        result: Result<(), SyncError>,
    },
    /// The session was asked to shut down.
    Shutdown,
}

/// The background loop, while it waits.
#[derive(Debug)]
pub struct BackgroundLoop {
    /// The peer the next cycle begins with.
    pub binding: PeerBinding,
    /// Cycles that failed in a row.
    pub failures: u32,
    /// The status to report.
    pub status: SyncStatus,
    /// Whether it has stopped for good.
    pub stopped: bool,
}

/// Whether `status` reports the failure `e`.
pub open spec fn reports(status: SyncStatus, e: SyncError) -> bool {
    status matches SyncStatus::Error(m) && m@ == e.message()
}

/// Whether `after` follows `before` when `event` ends its wait. A failure that no retry
/// can repair stops the loop and stays as its status; any other is retried, however
/// often it occurred. A shutdown leaves the loop idle. One that has stopped stays as it
/// is.
pub open spec fn is_loop_step(before: BackgroundLoop, event: LoopEvent, after: BackgroundLoop) -> bool {
    if before.stopped {
        after == before
    } else {
        match event {
            LoopEvent::Shutdown => after == (BackgroundLoop {
                status: SyncStatus::Idle,
                stopped: true,
                ..before
            }),
            LoopEvent::CycleEnded { binding, result: Ok(_) } => after == (BackgroundLoop {
                binding,
                failures: 0,
                status: SyncStatus::Syncing,
                stopped: false,
            }),
            LoopEvent::CycleEnded { binding, result: Err(e) } => {
                &&& after.binding == binding
                &&& reports(after.status, e)
                &&& after.stopped <==> e.is_terminal()
                &&& after.failures == if e.is_terminal() || before.failures == u32::MAX {
                    before.failures
                } else {
                    (before.failures + 1) as u32
                }
            },
        }
    }
}

impl BackgroundLoop {
    /// The loop as it begins with the peer that answered the handshake.
    pub fn start(binding: PeerBinding) -> (begun: Self)
        ensures
            begun == (BackgroundLoop {
                binding,
                failures: 0,
                status: SyncStatus::Syncing,
                stopped: false,
            }),
    {
        BackgroundLoop { binding, failures: 0, status: SyncStatus::Syncing, stopped: false }
    }

    /// Takes note of what ended a wait of the loop.
    pub fn background_loop(&mut self, event: LoopEvent)
        ensures
            is_loop_step(*old(self), event, *final(self)),
    {
        if self.stopped {
            return;
        }
        match event {
            LoopEvent::Shutdown => {
                self.status = SyncStatus::Idle;
                self.stopped = true;
            },
            LoopEvent::CycleEnded { binding, result: Ok(_) } => {
                self.binding = binding;
                self.failures = 0;
                self.status = SyncStatus::Syncing;
            },
            LoopEvent::CycleEnded { binding, result: Err(e) } => {
                self.binding = binding;
                self.status = SyncStatus::Error(e.to_string());
                if e.is_change_too_large() || e.is_request_too_large() {
                    self.stopped = true;
                } else {
                    self.failures = self.failures.saturating_add(1);
                }
            },
        }
    }
}

/// Whether `event` ends the background loop: a shutdown, or a failure that no retry can
/// repair.
pub open spec fn ends_loop(event: LoopEvent) -> bool {
    match event {
        LoopEvent::Shutdown => true,
        LoopEvent::CycleEnded { result, .. } => result matches Err(e) && e.is_terminal(),
    }
}

/// Whether `states` are those of a background loop, from its start and behind each of
/// `events`.
pub open spec fn is_loop_run(states: Seq<BackgroundLoop>, events: Seq<LoopEvent>) -> bool {
    &&& states.len() == events.len() + 1
    &&& states[0].failures == 0
    &&& states[0].status is Syncing
    &&& !states[0].stopped
    &&& forall|i: int|
        0 <= i < events.len() ==> #[trigger] loop_steps_at(states, events, i)
}

/// Whether event `i` leads from the state before it to the state behind it.
pub open spec fn loop_steps_at(states: Seq<BackgroundLoop>, events: Seq<LoopEvent>, i: int) -> bool {
    is_loop_step(states[i], events[i], states[i + 1])
}

/// Cycles that failed in a row at the end of `events`, none of which ended the loop, as
/// far as they can be counted.
pub open spec fn failed_in_a_row(events: Seq<LoopEvent>) -> u32
    decreases events.len(),
{
    if events.len() == 0 {
        0
    } else {
        let before = failed_in_a_row(events.drop_last());
        match events.last() {
            LoopEvent::CycleEnded { result: Ok(_), .. } => 0,
            _ => if before == u32::MAX {
                before
            } else {
                (before + 1) as u32
            },
        }
    }
}

/// Whether `status` is what the background loop reports behind `event`.
pub open spec fn reports_event(status: SyncStatus, event: LoopEvent) -> bool {
    match event {
        LoopEvent::Shutdown => status is Idle,
        LoopEvent::CycleEnded { result: Ok(_), .. } => status is Syncing,
        LoopEvent::CycleEnded { result: Err(e), .. } => reports(status, e),
    }
}

/// The background loop runs until the first event that ends it and not beyond: without
/// one it goes on, whatever failed, reporting its last cycle, counting the failures in a
/// row and working with the peer that cycle ended with.
pub proof fn law_loop_goes_on(states: Seq<BackgroundLoop>, events: Seq<LoopEvent>, k: int)
    requires
        is_loop_run(states, events),
        0 <= k <= events.len(),
        forall|i: int| #![trigger events[i]] 0 <= i < k ==> !ends_loop(events[i]),
    ensures
        !states[k].stopped,
        states[k].failures == failed_in_a_row(events.take(k)),
        k > 0 ==> reports_event(states[k].status, events[k - 1]),
        k > 0 ==> (events[k - 1] matches LoopEvent::CycleEnded { binding, .. }
            && states[k].binding == binding),
    decreases k,
{
    if k == 0 {
        assert(events.take(0) =~= Seq::empty());
    } else {
        law_loop_goes_on(states, events, k - 1);
        assert(loop_steps_at(states, events, k - 1));
        assert(events.take(k).drop_last() =~= events.take(k - 1));
        assert(events.take(k).last() == events[k - 1]);
        assert(!ends_loop(events[k - 1]));
    }
}

/// The first event that ends the background loop stops it for good: a shutdown leaves it
/// idle, a failure that no retry can repair leaves that failure as its status, and
/// nothing behind that event changes it any more.
pub proof fn law_loop_stops_for_good(
    states: Seq<BackgroundLoop>,
    events: Seq<LoopEvent>,
    end: int,
    k: int,
)
    requires
        is_loop_run(states, events),
        0 <= end < k <= events.len(),
        ends_loop(events[end]),
        forall|i: int| #![trigger events[i]] 0 <= i < end ==> !ends_loop(events[i]),
    ensures
        states[k].stopped,
        states[k] == states[end + 1],
        reports_event(states[k].status, events[end]),
    decreases k,
{
    assert(loop_steps_at(states, events, k - 1));
    if k == end + 1 {
        law_loop_goes_on(states, events, end);
    } else {
        law_loop_stops_for_good(states, events, end, k - 1);
    }
}

/// How long the background loop waits before the next cycle: the longer of both
/// intervals, or after failures the grown backoff up to its cap. `grown_backoff_ms`
/// is the first backoff grown once for each failure but the first.
pub fn next_sleep_ms(config: &SyncConfig, failures: u32, grown_backoff_ms: u64) -> (ms: u64)
    ensures
        ms == if failures > 0 {
            if grown_backoff_ms <= config.retry.max_backoff_ms {
                grown_backoff_ms
            } else {
                config.retry.max_backoff_ms
            }
        } else if config.push_interval_ms >= config.pull_interval_ms {
            config.push_interval_ms
        } else {
            config.pull_interval_ms
        },
{
    if failures > 0 {
        if grown_backoff_ms <= config.retry.max_backoff_ms {
            grown_backoff_ms
        } else {
            config.retry.max_backoff_ms
        }
    } else if config.push_interval_ms >= config.pull_interval_ms {
        config.push_interval_ms
    } else {
        config.pull_interval_ms
    }
}

// ---------------------------------------------------------------------------
// The session
// ---------------------------------------------------------------------------

/// What became of the background task.
#[derive(Clone, Copy, Debug, PartialEq, Eq, Structural)]
pub enum TaskState {
    /// There is none.
    Absent,
    /// It runs.
    Running,
    /// It ended by itself.
    Finished,
}

/// A sync session with the peer behind one transport.
#[derive(Debug)]
pub struct SyncManager {
    /// Settings.
    pub config: SyncConfig,
    /// This instance.
    pub local_instance_id: InstanceId,
    /// Most bytes of a body the transport reads.
    pub transport_limit: usize,
    /// The peer, once a handshake succeeded.
    pub peer: Option<PeerBinding>,
    /// What the session is doing.
    pub status: SyncStatus,
    /// Counters over everything applied.
    pub stats: SyncStats,
}

/// What is said of a session whose control traffic would not fit.
pub open spec fn small_budget(max_request_bytes: usize, transport_limit: usize) -> Seq<char> {
    "effective control budget "@ + crate::text::decimal(
        crate::sync::pusher::tighter(max_request_bytes, transport_limit) as nat,
    ) + " bytes (min of max_request_bytes "@ + crate::text::decimal(max_request_bytes as nat)
        + " and the transport's receive limit "@ + crate::text::decimal(transport_limit as nat)
        + ") is below the 1024-byte minimum"@
}

/// Whether two statuses say the same.
pub open spec fn same_status(a: SyncStatus, b: SyncStatus) -> bool {
    match (a, b) {
        (SyncStatus::Idle, SyncStatus::Idle) => true,
        (SyncStatus::Syncing, SyncStatus::Syncing) => true,
        (SyncStatus::Error(x), SyncStatus::Error(y)) => x@ == y@,
        _ => false,
    }
}

impl SyncManager {
    /// A session of `local_instance_id` over a transport that reads at most
    /// `transport_limit` bytes. Unusable settings are refused, and so is a budget
    /// too small for the session's own control traffic.
    pub fn new(local_instance_id: InstanceId, config: SyncConfig, transport_limit: usize) -> (manager:
        Result<Self, SyncError>)
        ensures
            manager is Ok <==> config.is_valid() && transport_limit >= MIN_CONTROL_FRAME_BYTES,
            manager matches Ok(m) ==> m == (SyncManager {
                config,
                local_instance_id,
                transport_limit,
                peer: None,
                status: SyncStatus::Idle,
                stats: SyncStats { skewed_timestamps: 0 },
            }),
            manager matches Err(e) ==> (e matches SyncError::Config(m) && m@
                == if !config.is_valid() {
                "Invalid field '"@ + config.fault().0 + "': "@ + config.fault().1
            } else {
                small_budget(config.max_request_bytes, transport_limit)
            }),
    {
        if let Err(fault) = config.validate() {
            return Err(SyncError::Config(fault.to_string()));
        }
        let effective: usize = tighter_budget(config.max_request_bytes, transport_limit);
        if effective < MIN_CONTROL_FRAME_BYTES {
            let mut s = String::from_str("effective control budget ");
            s.append(decimal_text(effective as u64).as_str());
            s.append(" bytes (min of max_request_bytes ");
            s.append(decimal_text(config.max_request_bytes as u64).as_str());
            s.append(" and the transport's receive limit ");
            s.append(decimal_text(transport_limit as u64).as_str());
            s.append(") is below the 1024-byte minimum");
            return Err(SyncError::Config(s));
        }
        Ok(
            SyncManager {
                config,
                local_instance_id,
                transport_limit,
                peer: None,
                status: SyncStatus::Idle,
                stats: SyncStats::default(),
            },
        )
    }

    /// What the session is doing.
    pub fn status(&self) -> (status: SyncStatus)
        ensures
            same_status(status, self.status),
    {
        match &self.status {
            SyncStatus::Idle => SyncStatus::Idle,
            SyncStatus::Syncing => SyncStatus::Syncing,
            SyncStatus::Error(text) => SyncStatus::Error(String::from_str(text.as_str())),
        }
    }

    /// Counters over everything applied.
    pub fn stats(&self) -> (stats: SyncStats)
        ensures
            stats == self.stats,
    {
        self.stats
    }

    /// The peer the session is bound to, if any.
    pub fn peer_instance_id(&self) -> (id: Option<InstanceId>)
        ensures
            id == match self.peer {
                Some(b) => Some(b.identity),
                None => None,
            },
    {
        match &self.peer {
            Some(binding) => Some(binding.identity),
            None => None,
        }
    }

    /// The peer to work with, or nothing where a handshake has to come first.
    pub fn bound_peer(&self) -> (binding: Option<PeerBinding>)
        ensures
            binding == self.peer,
    {
        self.peer
    }

    /// Binds the session to the peer that answered a handshake; a failed handshake
    /// leaves it as it was.
    pub fn bind(&mut self, response: Result<HandshakeResponse, SyncError>) -> (binding: Result<
        PeerBinding,
        SyncError,
    >)
        ensures
            match response {
                Err(e) => binding == Err::<PeerBinding, SyncError>(e),
                Ok(r) => {
                    &&& binding is Ok <==> opens_session(r)
                    &&& binding matches Ok(b) ==> b == (PeerBinding {
                        identity: r.instance_id,
                        receive_budget: crate::sync::server::host_size(r.receive_limit_bytes),
                    })
                    &&& binding matches Err(e) ==> is_handshake_fault(r, e)
                },
            },
            *final(self) == (SyncManager {
                peer: match binding {
                    Ok(b) => Some(b),
                    Err(_) => old(self).peer,
                },
                ..*old(self)
            }),
    {
        let answer = match response {
            Ok(answer) => answer,
            Err(e) => {
                return Err(e);
            },
        };
        match handshake_with(answer) {
            Ok(binding) => {
                self.peer = Some(binding);
                Ok(binding)
            },
            Err(e) => Err(e),
        }
    }

    /// Whether a background task may be started: not while one runs. One that ended
    /// by itself gives way.
    pub fn start(&self, task: TaskState) -> (r: Result<(), SyncError>)
        ensures
            r is Err <==> task == TaskState::Running,
            r matches Err(e) ==> (e matches SyncError::Transport(m) && m@
                == "SyncManager already started"@),
    {
        match task {
            TaskState::Running => Err(SyncError::transport("SyncManager already started")),
            _ => Ok(()),
        }
    }

    /// Takes note of the handshake that precedes a background task; the task is to
    /// be spawned for the peer returned.
    pub fn started(&mut self, response: Result<HandshakeResponse, SyncError>) -> (binding: Result<
        PeerBinding,
        SyncError,
    >)
        ensures
            match response {
                Err(e) => binding == Err::<PeerBinding, SyncError>(e),
                Ok(r) => {
                    &&& binding is Ok <==> opens_session(r)
                    &&& binding matches Ok(b) ==> b == (PeerBinding {
                        identity: r.instance_id,
                        receive_budget: crate::sync::server::host_size(r.receive_limit_bytes),
                    })
                    &&& binding matches Err(e) ==> is_handshake_fault(r, e)
                },
            },
            *final(self) == match binding {
                Ok(b) => SyncManager { peer: Some(b), status: SyncStatus::Syncing, ..*old(self) },
                Err(_) => *old(self),
            },
    {
        match self.bind(response) {
            Ok(binding) => {
                self.status = SyncStatus::Syncing;
                Ok(binding)
            },
            Err(e) => Err(e),
        }
    }

    /// Takes note of the end of the background task, which `joined` describes. One
    /// that had ended by itself leaves its status in place.
    pub fn stop(&mut self, task: TaskState, joined: Result<(), String>) -> (r: Result<(), SyncError>)
        ensures
            r is Err <==> task != TaskState::Absent && joined is Err,
            r matches Err(e) ==> (e matches SyncError::Transport(m) && (joined matches Err(t) && m@
                == "Background task panicked: "@ + t@)),
            *final(self) == if task == TaskState::Running && joined is Ok {
                SyncManager { status: SyncStatus::Idle, ..*old(self) }
            } else {
                *old(self)
            },
    {
        match task {
            TaskState::Absent => Ok(()),
            TaskState::Running => match joined {
                Ok(_) => {
                    self.status = SyncStatus::Idle;
                    Ok(())
                },
                Err(text) => Err(
                    SyncError::Transport(
                        crate::text::join("Background task panicked: ", text.as_str()),
                    ),
                ),
            },
            TaskState::Finished => match joined {
                Ok(_) => Ok(()),
                Err(text) => Err(
                    SyncError::Transport(
                        crate::text::join("Background task panicked: ", text.as_str()),
                    ),
                ),
            },
        }
    }

    /// Begins one cycle with the bound peer.
    pub fn sync_once(&mut self, binding: PeerBinding) -> (begun: (Cycle, CycleAction))
        ensures
            begun.0 == (Cycle {
                binding,
                direction: old(self).config.direction,
                rebinds_left: 1,
                phase: first_phase(old(self).config.direction),
            }),
            awaits(begun.0.phase, begun.1),
            *final(self) == (SyncManager { status: SyncStatus::Syncing, ..*old(self) }),
    {
        self.status = SyncStatus::Syncing;
        Cycle::start(binding, self.config.direction)
    }

    /// Takes note of how a cycle ended. Its binding is kept whatever happened; a
    /// failure that no retry can repair is kept as the status.
    pub fn sync_once_ended(&mut self, cycle: &Cycle, result: Result<(), SyncError>) -> (r: Result<
        SyncStatus,
        SyncError,
    >)
        ensures
            final(self).peer == Some(cycle.binding),
            final(self).config == old(self).config,
            final(self).local_instance_id == old(self).local_instance_id,
            final(self).transport_limit == old(self).transport_limit,
            final(self).stats == old(self).stats,
            match result {
                Ok(_) => r == Ok::<SyncStatus, SyncError>(SyncStatus::Idle) && final(self).status
                    is Idle,
                Err(e) => {
                    &&& r == Err::<SyncStatus, SyncError>(e)
                    &&& if e.is_terminal() {
                        reports(final(self).status, e)
                    } else {
                        final(self).status is Idle
                    }
                },
            },
    {
        self.peer = Some(cycle.binding);
        match result {
            Ok(_) => {
                self.status = SyncStatus::Idle;
                Ok(SyncStatus::Idle)
            },
            Err(e) => {
                if e.is_change_too_large() || e.is_request_too_large() {
                    self.status = SyncStatus::Error(e.to_string());
                } else {
                    self.status = SyncStatus::Idle;
                }
                Err(e)
            },
        }
    }

    /// Begins a catch-up with the bound peer, from its stored position.
    pub fn initial_sync(&mut self, binding: PeerBinding, position: u64) -> (run: CatchUp)
        ensures
            run.binding == binding,
            run.total_pulled == 0,
            run.rebinds_left == 1,
            run.spec_view() == (CatchUpView { position, failed: Set::empty(), stalled: false }),
            *final(self) == (SyncManager { status: SyncStatus::Syncing, ..*old(self) }),
    {
        self.status = SyncStatus::Syncing;
        CatchUp::new(binding, position)
    }

    /// Takes note of the end of a catch-up: of a pull that ended it, or of its last
    /// page.
    pub fn initial_sync_ended(&mut self, run: &CatchUp, failed: Option<SyncError>) -> (r: Result<
        (),
        SyncError,
    >)
        ensures
            *final(self) == (SyncManager { status: SyncStatus::Idle, ..*old(self) }),
            match failed {
                Some(e) => r == Err::<(), SyncError>(e),
                None => {
                    &&& r is Ok <==> is_complete(run.spec_view())
                    &&& r matches Err(e) ==> (e matches SyncError::CatchUpIncomplete {
                        peer,
                        position,
                        reason,
                    } && peer == run.binding.identity && position == run.position && reason@
                        == incomplete_reason(run.spec_view()))
                },
            },
    {
        self.status = SyncStatus::Idle;
        match failed {
            Some(e) => Err(e),
            None => run.conclude(),
        }
    }
}

} // verus!
