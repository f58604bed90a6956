//! Serving a peer's requests.
//!
//! The server decides; the caller reads the log, applies changes to the store and
//! turns messages into bytes. A request that is refused is refused from its own
//! metadata alone, before anything is read or applied for it.

use vstd::prelude::*;
use std::collections::BTreeSet;
use vstd::string::StringExecFns;

use crate::bytes::varint_len;
use crate::storage::schema::WatchEventRecord;
use crate::sync::applier::ApplyResult;
use crate::sync::batch::LogCandidate;
use crate::sync::config::{is_allowed, SyncConfig};
use crate::sync::error::SyncError;
use crate::sync::payload::{build_payload, make_change, Entity};
use crate::sync::pusher::tighter_budget;
use crate::sync::types::{
    bound_wire_detail, HandshakeRequest, HandshakeResponse, PullPage, PullRequest, PushAck,
    PushRequest, SyncChange, SyncPosition, SyncStats, WireErrorCode, WireReply, WireResult,
};
use crate::sync::wire::{
    frame_bounded, unframe_bounded, FrameSizer, WireOperation, MIN_CONTROL_FRAME_BYTES,
};
use crate::sync::SYNC_PROTOCOL_VERSION;
use crate::text::decimal_text;
use crate::types::{CollectiveId, InstanceId};

verus! {

/// Log events one pull reads at most.
pub const PULL_PAGE_EVENT_LIMIT: usize = 1000;

// ---------------------------------------------------------------------------
// Building changes
// ---------------------------------------------------------------------------

/// The change that an event of the log of `source` stands for, where `found` is the
/// record it speaks of: nothing where the record is gone or the event is never sent.
pub open spec fn resolved(
    sequence: u64,
    record: WatchEventRecord,
    source: InstanceId,
    found: Option<Entity>,
) -> Option<SyncChange> {
    match crate::sync::payload::payload(
        record,
        if crate::sync::payload::needed(record) is Some {
            found
        } else {
            None
        },
    ) {
        Some(p) => Some(crate::sync::payload::change_of(sequence, record, source, p)),
        None => None,
    }
}

/// Turns an event of the local log into a change, or into nothing where its record
/// is gone or it is never sent. `found` is that record, or why it could not be
/// read, which is a failure and not a skip.
pub fn build_change_from_record(
    sequence: u64,
    record: &WatchEventRecord,
    source_instance: InstanceId,
    found: Result<Option<Entity>, String>,
) -> (change: Result<Option<SyncChange>, SyncError>)
    ensures
        change is Err <==> crate::sync::payload::needed(*record) is Some && found is Err,
        change matches Err(e) ==> (e matches SyncError::Transport(m) && (found matches Err(t) && m@
            == "Failed to load entity: "@ + t@)),
        change matches Ok(c) ==> c == resolved(
            sequence,
            *record,
            source_instance,
            found->Ok_0,
        ),
{
    match build_payload(record, found, "Failed to load entity: ") {
        Err(e) => Err(e),
        Ok(None) => Ok(None),
        Ok(Some(payload)) => Ok(Some(make_change(sequence, record, source_instance, payload))),
    }
}

// ---------------------------------------------------------------------------
// Push metadata
// ---------------------------------------------------------------------------

/// Whether change `i` claims another source than the request's sender.
pub open spec fn foreign(request: PushRequest, i: int) -> bool {
    request.changes@[i].source_instance != request.source_instance
}

/// Whether an earlier change of the batch has the sequence of change `i`.
pub open spec fn repeated(request: PushRequest, i: int) -> bool {
    exists|j: int|
        #![trigger request.changes@[j]]
        0 <= j < i && request.changes@[j].sequence == request.changes@[i].sequence
}

/// Whether change `i` makes the batch untrustworthy.
pub open spec fn faulty(request: PushRequest, i: int) -> bool {
    foreign(request, i) || request.changes@[i].sequence == 0 || repeated(request, i)
}

/// Whether the batch is consistent: one source, no zero sequence, none twice.
pub open spec fn consistent(request: PushRequest) -> bool {
    forall|i: int|
        #![trigger request.changes@[i]]
        0 <= i < request.changes@.len() ==> !faulty(request, i)
}

/// What is said of a batch whose first faulty change is `i`.
pub open spec fn batch_fault(request: PushRequest, i: int) -> Seq<char> {
    let change = request.changes@[i];
    if foreign(request, i) {
        "change "@ + crate::text::decimal(change.sequence as nat) + " claims source "@
            + crate::types::uuid_chars(change.source_instance.value as nat)
            + " but the request declares "@ + crate::types::uuid_chars(
            request.source_instance.value as nat,
        )
    } else if change.sequence == 0 {
        "a change carries sequence 0, below the first WAL sequence"@
    } else {
        "sequence "@ + crate::text::decimal(change.sequence as nat) + " appears more than once"@
    }
}

/// Whether `i` is the first faulty change.
pub open spec fn first_faulty(request: PushRequest, i: int) -> bool {
    &&& 0 <= i < request.changes@.len()
    &&& faulty(request, i)
    &&& forall|j: int| #![trigger request.changes@[j]] 0 <= j < i ==> !faulty(request, j)
}

/// Adds a sequence to those seen, and says whether it is new.
pub fn note_sequence(seen: &mut BTreeSet<u64>, n: u64) -> (fresh: bool)
    ensures
        final(seen)@ == old(seen)@.insert(n),
        fresh == !old(seen)@.contains(n),
{
    proof {
        crate::sync::batch::lemma_sequences_obey_order();
    }
    seen.insert(n)
}

/// Refuses an inconsistent batch, naming its first faulty change.
pub fn validate_batch_metadata(request: &PushRequest) -> (r: Result<(), String>)
    ensures
        r is Ok <==> consistent(*request),
        r matches Err(text) ==> exists|i: int|
            #[trigger] first_faulty(*request, i) && text@ == batch_fault(*request, i),
{
    let mut seen: BTreeSet<u64> = BTreeSet::new();
    let mut i: usize = 0;
    while i < request.changes.len()
        invariant
            i <= request.changes@.len(),
            forall|n: u64| #[trigger]
                seen@.contains(n) <==> exists|j: int|
                    #![trigger request.changes@[j]]
                    0 <= j < i && request.changes@[j].sequence == n,
            forall|j: int| #![trigger request.changes@[j]] 0 <= j < i ==> !faulty(*request, j),
        decreases request.changes@.len() - i,
    {
        let sequence: u64 = request.changes[i].sequence;
        let source = request.changes[i].source_instance;
        if source != request.source_instance {
            assert(first_faulty(*request, i as int));
            let mut s = String::from_str("change ");
            s.append(decimal_text(sequence).as_str());
            s.append(" claims source ");
            s.append(source.to_string().as_str());
            s.append(" but the request declares ");
            s.append(request.source_instance.to_string().as_str());
            return Err(s);
        }
        if sequence == 0 {
            assert(first_faulty(*request, i as int));
            return Err(
                String::from_str("a change carries sequence 0, below the first WAL sequence"),
            );
        }
        let ghost before = seen@;
        if !note_sequence(&mut seen, sequence) {
            assert(before.contains(sequence));
            assert(first_faulty(*request, i as int));
            let mut s = String::from_str("sequence ");
            s.append(decimal_text(sequence).as_str());
            s.append(" appears more than once");
            return Err(s);
        }
        proof {
            assert(!before.contains(sequence));
            assert(!faulty(*request, i as int));
            assert forall|n: u64| #[trigger]
                seen@.contains(n) <==> exists|j: int|
                    #![trigger request.changes@[j]]
                    0 <= j < i + 1 && request.changes@[j].sequence == n by {
                if n == sequence {
                    assert(request.changes@[i as int].sequence == n);
                } else if before.contains(n) {
                    let j = choose|j: int|
                        #![trigger request.changes@[j]]
                        0 <= j < i && request.changes@[j].sequence == n;
                    assert(request.changes@[j].sequence == n);
                }
            }
        }
        i = i + 1;
    }
    Ok(())
}

// ---------------------------------------------------------------------------
// Pull pages
// ---------------------------------------------------------------------------

/// Length of the reply without changes that reports position `at`, where at
/// position zero it takes `base` bytes: the position travels as a varint.
pub open spec fn envelope_at(base: usize, at: u64) -> nat {
    (base + crate::bytes::varint(at as nat).len() - 1) as nat
}

/// Moves a pull's reported position to `sequence`, but only where the reply that
/// carries it still fits `cap`; otherwise nothing changes.
pub fn advance_scan_within_cap(
    sizer: &mut FrameSizer,
    scanned: &mut u64,
    sequence: u64,
    cap: usize,
) -> (moved: Result<bool, SyncError>)
    ensures
        ({
            let old_width = crate::bytes::varint(*old(scanned) as nat).len() as int;
            let new_width = crate::bytes::varint(sequence as nat).len() as int;
            let envelope = old(sizer).envelope + new_width - old_width;
            let candidate = FrameSizer { envelope: envelope as usize, ..*old(sizer) };
            &&& moved matches Err(e) ==> (e matches SyncError::Serialization(m) && m@
                == if new_width < old_width {
                "pull scan moved backwards, from "@ + crate::text::decimal(
                    *old(scanned) as nat,
                ) + " to "@ + crate::text::decimal(sequence as nat)
            } else {
                "pull reply envelope overflows the host's usize"@
            })
            &&& moved is Err <==> new_width < old_width || envelope > usize::MAX
            &&& moved matches Ok(yes) ==> {
                &&& yes <==> candidate.spec_len() <= cap
                &&& *final(sizer) == if yes {
                    candidate
                } else {
                    *old(sizer)
                }
                &&& *final(scanned) == if yes {
                    sequence
                } else {
                    *old(scanned)
                }
            }
            &&& moved is Err ==> *final(sizer) == *old(sizer) && *final(scanned) == *old(scanned)
        }),
{
    let new_width: usize = varint_len(sequence);
    let old_width: usize = varint_len(*scanned);
    if new_width < old_width {
        let mut s = String::from_str("pull scan moved backwards, from ");
        s.append(decimal_text(*scanned).as_str());
        s.append(" to ");
        s.append(decimal_text(sequence).as_str());
        return Err(SyncError::Serialization(s));
    }
    let envelope: usize = match sizer.envelope().checked_add(new_width - old_width) {
        Some(envelope) => envelope,
        None => {
            return Err(SyncError::serialization("pull reply envelope overflows the host's usize"));
        },
    };
    let mut candidate: FrameSizer = *sizer;
    candidate.rebase(envelope);
    if candidate.len() > cap {
        return Ok(false);
    }
    *sizer = candidate;
    *scanned = sequence;
    Ok(true)
}

/// Length of the reply that carries the changes among the first `k` events and
/// reports the last of them.
pub open spec fn page_len(candidates: Seq<LogCandidate>, k: int, base: usize, cursor: u64) -> nat {
    crate::sync::wire::frame_len(
        envelope_at(base, crate::sync::batch::covered(candidates.take(k), cursor)),
        crate::sync::batch::kept(candidates.take(k)).len(),
        crate::sync::batch::kept_bytes(candidates.take(k)),
    )
}

/// Whether a page that covers the first `k` events can cover the next one too.
pub open spec fn page_extends(
    candidates: Seq<LogCandidate>,
    k: int,
    base: usize,
    cursor: u64,
    cap: usize,
    batch_size: usize,
) -> bool {
    &&& candidates[k].change is Ok
    &&& page_len(candidates, k + 1, base, cursor) <= cap
    &&& candidates[k].change matches Ok(Some(_)) ==> crate::sync::batch::kept(
        candidates.take(k),
    ).len() < batch_size
}

/// Whether the longest page covers exactly the first `n` events.
pub open spec fn page_covers(
    candidates: Seq<LogCandidate>,
    n: int,
    base: usize,
    cursor: u64,
    cap: usize,
    batch_size: usize,
) -> bool {
    &&& 0 <= n <= candidates.len()
    &&& forall|j: int|
        0 <= j < n ==> #[trigger] page_extends(candidates, j, base, cursor, cap, batch_size)
    &&& n < candidates.len() ==> !page_extends(candidates, n, base, cursor, cap, batch_size)
}

/// Whether event `n` is a change that no page can carry: nothing precedes it, and
/// alone it exceeds the byte budget.
pub open spec fn page_blocks(
    candidates: Seq<LogCandidate>,
    n: int,
    base: usize,
    cursor: u64,
    cap: usize,
    batch_size: usize,
) -> bool {
    &&& n < candidates.len()
    &&& candidates[n].change matches Ok(Some(_))
    &&& batch_size > 0
    &&& crate::sync::batch::kept(candidates.take(n)).len() == 0
    &&& crate::sync::batch::covered(candidates.take(n), cursor) <= cursor
    &&& page_len(candidates, n + 1, base, cursor) > cap
}

/// Whether events come in log order, all behind `cursor`.
pub open spec fn ascending(candidates: Seq<LogCandidate>, cursor: u64) -> bool {
    &&& forall|i: int|
        #![trigger candidates[i]]
        0 <= i < candidates.len() ==> cursor < candidates[i].sequence
    &&& forall|i: int, j: int|
        #![trigger candidates[i], candidates[j]]
        0 <= i < j < candidates.len() ==> candidates[i].sequence < candidates[j].sequence
}

/// A page under construction, when the scan ended.
#[derive(Debug)]
pub struct ScannedPage {
    /// The changes.
    pub changes: Vec<SyncChange>,
    /// The last event covered.
    pub scanned: u64,
    /// How many events are covered.
    pub taken: usize,
    /// The change that no page can carry, and the frame size it requires.
    pub too_large: Option<(u64, usize)>,
}

/// Scans events in order and takes the longest run whose complete reply fits the
/// byte budget and the count ceiling. An event that tells the peer nothing is
/// passed, but only where the reply that reports its position still fits.
pub fn scan_page(
    candidates: Vec<LogCandidate>,
    base: usize,
    cursor: u64,
    cap: usize,
    batch_size: usize,
) -> (page: Result<ScannedPage, SyncError>)
    requires
        ascending(candidates@, cursor),
        base + 10 <= usize::MAX,
    ensures
        page matches Ok(p) ==> {
            &&& page_covers(candidates@, p.taken as int, base, cursor, cap, batch_size)
            &&& p.taken < candidates@.len() ==> candidates@[p.taken as int].change is Ok
            &&& p.changes@ == crate::sync::batch::kept(candidates@.take(p.taken as int))
            &&& p.scanned == crate::sync::batch::covered(
                candidates@.take(p.taken as int),
                cursor,
            )
            &&& p.too_large is Some <==> page_blocks(
                candidates@,
                p.taken as int,
                base,
                cursor,
                cap,
                batch_size,
            )
            &&& p.too_large matches Some(t) ==> {
                &&& candidates@[p.taken as int].change matches Ok(Some(change))
                &&& t.0 == change.sequence
                &&& t.1 == page_len(candidates@, p.taken + 1, base, cursor)
            }
        },
        page matches Err(e) ==> exists|n: int|
            {
                &&& #[trigger] page_covers(candidates@, n, base, cursor, cap, batch_size)
                &&& n < candidates@.len()
                &&& candidates@[n].change == Err::<Option<SyncChange>, SyncError>(e)
            },
{
    let ghost all = candidates@;
    let total: usize = candidates.len();
    let start: usize = base + varint_len(cursor) - 1;
    let mut sizer = FrameSizer::new(start);
    let mut changes: Vec<SyncChange> = Vec::new();
    let mut scanned: u64 = cursor;
    let mut taken: usize = 0;
    proof {
        assert(all.take(0) =~= Seq::empty());
    }
    for candidate in it: candidates
        invariant
            it.seq() == all,
            all.len() == total,
            taken == it.index(),
            ascending(all, cursor),
            base + 10 <= usize::MAX,
            sizer.envelope as nat == envelope_at(base, scanned),
            sizer.count == crate::sync::batch::kept(all.take(taken as int)).len(),
            sizer.items as nat == crate::sync::wire::saturated(
                crate::sync::batch::kept_bytes(all.take(taken as int)),
            ),
            changes@ == crate::sync::batch::kept(all.take(taken as int)),
            scanned == crate::sync::batch::covered(all.take(taken as int), cursor),
            forall|j: int|
                0 <= j < taken ==> #[trigger] page_extends(
                    all,
                    j,
                    base,
                    cursor,
                    cap,
                    batch_size,
                ),
    {
        let ghost k: int = taken as int;
        proof {
            assert(candidate == all[k]);
            crate::sync::batch::lemma_take_next(all, k);
            crate::sync::batch::lemma_kept_len(all.take(k));
            assert(k > 0 ==> all.take(k).last() == all[k - 1]);
            assert(scanned < candidate.sequence);
            crate::bytes::law_varint_len_monotonic(scanned as nat, candidate.sequence as nat);
        }
        let sequence: u64 = candidate.sequence;
        let width: usize = varint_len(sequence);
        let item: usize = candidate.item_len;
        match candidate.change {
            Err(e) => {
                assert(page_covers(all, k, base, cursor, cap, batch_size));
                return Err(e);
            },
            Ok(None) => {
                match advance_scan_within_cap(&mut sizer, &mut scanned, sequence, cap) {
                    Err(e) => {
                        assert(false);
                        return Err(e);
                    },
                    Ok(false) => {
                        assert(page_covers(all, k, base, cursor, cap, batch_size));
                        return Ok(ScannedPage { changes, scanned, taken, too_large: None });
                    },
                    Ok(true) => {
                        assert(page_extends(all, k, base, cursor, cap, batch_size));
                    },
                }
            },
            Ok(Some(change)) => {
                if changes.len() >= batch_size {
                    assert(page_covers(all, k, base, cursor, cap, batch_size));
                    return Ok(ScannedPage { changes, scanned, taken, too_large: None });
                }
                let mut next: FrameSizer = sizer;
                next.rebase(base + width - 1);
                next.push(item);
                let needed: usize = next.len();
                assert(needed as nat == page_len(all, k + 1, base, cursor));
                if needed > cap {
                    assert(page_covers(all, k, base, cursor, cap, batch_size));
                    if changes.len() == 0 && scanned <= cursor {
                        assert(page_blocks(all, k, base, cursor, cap, batch_size));
                        return Ok(
                            ScannedPage {
                                changes,
                                scanned,
                                taken,
                                too_large: Some((change.sequence, needed)),
                            },
                        );
                    }
                    return Ok(ScannedPage { changes, scanned, taken, too_large: None });
                }
                assert(page_extends(all, k, base, cursor, cap, batch_size));
                sizer = next;
                changes.push(change);
                scanned = sequence;
            },
        }
        taken = taken + 1;
    }
    proof {
        assert(page_covers(all, taken as int, base, cursor, cap, batch_size));
    }
    Ok(ScannedPage { changes, scanned, taken, too_large: None })
}

/// An event with its change dropped where the requester did not ask for its
/// collective.
pub open spec fn screened_one(
    candidate: LogCandidate,
    filter: Option<Vec<CollectiveId>>,
) -> LogCandidate {
    match candidate.change {
        Ok(Some(change)) => if crate::sync::config::allowed(filter, change.collective_id) {
            candidate
        } else {
            LogCandidate { change: Ok(None), ..candidate }
        },
        _ => candidate,
    }
}

/// Events with the changes dropped that the requester did not ask for.
pub open spec fn screened(
    candidates: Seq<LogCandidate>,
    filter: Option<Vec<CollectiveId>>,
) -> Seq<LogCandidate> {
    Seq::new(candidates.len(), |i: int| screened_one(candidates[i], filter))
}

/// Drops the changes that the requester did not ask for.
pub fn screen(candidates: Vec<LogCandidate>, filter: &Option<Vec<CollectiveId>>) -> (kept: Vec<
    LogCandidate,
>)
    ensures
        kept@ == screened(candidates@, *filter),
{
    let ghost all = candidates@;
    let mut kept: Vec<LogCandidate> = Vec::new();
    for candidate in it: candidates
        invariant
            it.seq() == all,
            kept@ == screened(all, *filter).take(it.index() as int),
    {
        let ghost k: int = kept@.len() as int;
        assert(candidate == all[k]);
        let mut one = candidate;
        let wanted = match &one.change {
            Ok(Some(change)) => is_allowed(filter, change.collective_id),
            _ => true,
        };
        if !wanted {
            one.change = Ok(None);
        }
        kept.push(one);
        assert(kept@ =~= screened(all, *filter).take(k + 1));
    }
    assert(kept@ =~= screened(all, *filter));
    kept
}

// ---------------------------------------------------------------------------
// The server
// ---------------------------------------------------------------------------

/// A number of bytes or changes stated on the wire, within this machine's sizes.
pub open spec fn host_size(n: u64) -> usize {
    crate::sync::wire::saturated(n as nat) as usize
}

/// A number of bytes or changes stated on the wire, within this machine's sizes.
pub fn to_host_size(n: u64) -> (size: usize)
    ensures
        size == host_size(n),
{
    if n > usize::MAX as u64 {
        usize::MAX
    } else {
        n as usize
    }
}

/// Serves the requests of peers.
#[derive(Clone, Debug)]
pub struct SyncServer {
    /// This instance.
    pub instance_id: InstanceId,
    /// Settings.
    pub config: SyncConfig,
    /// Counters over everything pushed to this server.
    pub stats: SyncStats,
}

/// What is said to one who declared protocol version `declared`.
pub open spec fn version_refusal(declared: u32) -> Seq<char> {
    "server speaks protocol v5, request declared v"@ + crate::text::decimal(declared as nat)
}

fn version_refusal_text(declared: u32) -> (s: String)
    ensures
        s@ == version_refusal(declared),
{
    crate::text::join(
        "server speaks protocol v5, request declared v",
        decimal_text(declared as u64).as_str(),
    )
}

impl SyncServer {
    /// A server for the store of `instance_id`. Unusable settings are refused.
    pub fn new(instance_id: InstanceId, config: SyncConfig) -> (server: Result<Self, SyncError>)
        ensures
            server is Ok <==> config.is_valid(),
            server matches Ok(s) ==> s == (SyncServer {
                instance_id,
                config,
                stats: SyncStats { skewed_timestamps: 0 },
            }),
            server matches Err(e) ==> (e matches SyncError::Config(m) && m@ == "Invalid field '"@
                + config.fault().0 + "': "@ + config.fault().1),
    {
        if let Err(fault) = config.validate() {
            return Err(SyncError::Config(fault.to_string()));
        }
        Ok(SyncServer { instance_id, config, stats: SyncStats::default() })
    }

    /// Most bytes of a body this server accepts, and says so.
    pub fn receive_limit_bytes(&self) -> (n: usize)
        ensures
            n == self.config.max_request_bytes,
    {
        self.config.max_request_bytes
    }

    /// This instance.
    pub fn instance_id(&self) -> (id: InstanceId)
        ensures
            id == self.instance_id,
    {
        self.instance_id
    }

    /// Counters over everything pushed to this server.
    pub fn stats(&self) -> (stats: SyncStats)
        ensures
            stats == self.stats,
    {
        self.stats
    }

    /// Answers a handshake: out of bounds it is refused outright, of another
    /// protocol version it is declined with a reason, and otherwise accepted.
    pub fn handle_handshake(&self, request: HandshakeRequest) -> (response: Result<
        HandshakeResponse,
        SyncError,
    >)
        ensures
            response is Ok <==> request.in_bounds(),
            response matches Err(e) ==> e is InvalidPayload,
            response matches Ok(r) ==> {
                &&& r.instance_id == self.instance_id
                &&& r.protocol_version == SYNC_PROTOCOL_VERSION
                &&& r.accepted <==> request.protocol_version == SYNC_PROTOCOL_VERSION
                &&& r.receive_limit_bytes == self.config.max_request_bytes
                &&& r.reason is None <==> r.accepted
                &&& r.reason matches Some(text) ==> text@
                    == crate::sync::types::bounded_detail(
                    "Protocol version mismatch: server v5, client v"@ + crate::text::decimal(
                        request.protocol_version as nat,
                    ),
                )
            },
    {
        if let Err(e) = request.check_bounds() {
            return Err(e);
        }
        if request.protocol_version != SYNC_PROTOCOL_VERSION {
            let reason = crate::text::join(
                "Protocol version mismatch: server v5, client v",
                decimal_text(request.protocol_version as u64).as_str(),
            );
            return Ok(
                HandshakeResponse {
                    instance_id: self.instance_id,
                    protocol_version: SYNC_PROTOCOL_VERSION,
                    accepted: false,
                    reason: Some(bound_wire_detail(reason.as_str())),
                    receive_limit_bytes: self.config.max_request_bytes as u64,
                },
            );
        }
        Ok(
            HandshakeResponse {
                instance_id: self.instance_id,
                protocol_version: SYNC_PROTOCOL_VERSION,
                accepted: true,
                reason: None,
                receive_limit_bytes: self.config.max_request_bytes as u64,
            },
        )
    }

    /// Most bytes of a reply to one who can read `requester_limit`.
    pub open spec fn reply_budget(self, requester_limit: u64) -> usize {
        crate::sync::pusher::tighter(host_size(requester_limit), self.config.max_request_bytes)
    }

    /// Refuses to act on a request whose reply could not be sent.
    pub fn preflight_reply(&self, requester_limit: u64) -> (r: Result<(), SyncError>)
        ensures
            r is Ok <==> self.reply_budget(requester_limit) >= MIN_CONTROL_FRAME_BYTES,
            r matches Err(e) ==> e == (SyncError::PayloadTooLarge {
                size: MIN_CONTROL_FRAME_BYTES,
                max: self.reply_budget(requester_limit),
            }),
    {
        let budget: usize = tighter_budget(
            to_host_size(requester_limit),
            self.config.max_request_bytes,
        );
        if budget < MIN_CONTROL_FRAME_BYTES {
            return Err(
                SyncError::PayloadTooLarge { size: MIN_CONTROL_FRAME_BYTES, max: budget },
            );
        }
        Ok(())
    }

    /// Whether a push is acted on.
    pub open spec fn accepts_push(self, request: PushRequest) -> bool {
        &&& request.protocol_version == SYNC_PROTOCOL_VERSION
        &&& request.target_instance == self.instance_id
        &&& consistent(request)
        &&& self.reply_budget(request.reply_limit_bytes) >= MIN_CONTROL_FRAME_BYTES
    }

    /// Whether `r` is what a push that is not acted on is answered.
    pub open spec fn is_push_refusal(
        self,
        request: PushRequest,
        r: Result<WireReply<PushAck>, SyncError>,
    ) -> bool {
        if request.protocol_version != SYNC_PROTOCOL_VERSION {
            r matches Ok(reply) && reply.refuses(
                self.instance_id,
                WireErrorCode::ProtocolVersion,
                version_refusal(request.protocol_version),
            )
        } else if request.target_instance != self.instance_id {
            r matches Ok(reply) && reply == (WireReply::<PushAck> {
                protocol_version: SYNC_PROTOCOL_VERSION,
                responder: self.instance_id,
                result: WireResult::PeerChanged { expected: request.target_instance },
            })
        } else if !consistent(request) {
            r matches Ok(reply) && exists|i: int|
                #[trigger] first_faulty(request, i) && reply.refuses(
                    self.instance_id,
                    WireErrorCode::InvalidRequest,
                    batch_fault(request, i),
                )
        } else {
            r matches Err(e) && e == (SyncError::PayloadTooLarge {
                size: MIN_CONTROL_FRAME_BYTES,
                max: self.reply_budget(request.reply_limit_bytes),
            })
        }
    }

    /// The answer to a push that is not acted on, or nothing for one that is. The
    /// request alone decides.
    pub fn refuse_push(&self, request: &PushRequest) -> (r: Option<
        Result<WireReply<PushAck>, SyncError>,
    >)
        ensures
            r is None <==> self.accepts_push(*request),
            r matches Some(x) ==> self.is_push_refusal(*request, x),
    {
        if request.protocol_version != SYNC_PROTOCOL_VERSION {
            let text = version_refusal_text(request.protocol_version);
            return Some(
                Ok(
                    WireReply::rejected(
                        self.instance_id,
                        WireErrorCode::ProtocolVersion,
                        text.as_str(),
                    ),
                ),
            );
        }
        if request.target_instance != self.instance_id {
            return Some(Ok(WireReply::peer_changed(self.instance_id, request.target_instance)));
        }
        if let Err(detail) = validate_batch_metadata(request) {
            return Some(
                Ok(
                    WireReply::rejected(
                        self.instance_id,
                        WireErrorCode::InvalidRequest,
                        detail.as_str(),
                    ),
                ),
            );
        }
        match self.preflight_reply(request.reply_limit_bytes) {
            Ok(_) => None,
            Err(e) => Some(Err(e)),
        }
    }

    /// The acknowledgement of a batch that ended as `result`.
    pub open spec fn ack(self, request: PushRequest, result: ApplyResult) -> PushAck {
        let total = result.applied + result.skipped;
        PushAck {
            wal_owner: request.source_instance,
            accepted: if total >= result.failed {
                (total - result.failed) as u64
            } else {
                0
            },
            rejected: result.failed as u64,
            total: total as u64,
            safe_through: result.safe_through,
        }
    }

    /// Answers a push whose changes ended as `result`. A push that is not acted on
    /// is refused whatever `result` says, and changes no counter.
    pub fn handle_push(&mut self, request: &PushRequest, result: &ApplyResult) -> (reply: Result<
        WireReply<PushAck>,
        SyncError,
    >)
        requires
            result.applied + result.skipped <= usize::MAX,
        ensures
            final(self).instance_id == old(self).instance_id,
            final(self).config == old(self).config,
            !old(self).accepts_push(*request) ==> old(self).is_push_refusal(*request, reply)
                && final(self).stats == old(self).stats,
            old(self).accepts_push(*request) ==> reply == Ok::<WireReply<PushAck>, SyncError>(
                WireReply {
                    protocol_version: SYNC_PROTOCOL_VERSION,
                    responder: old(self).instance_id,
                    result: WireResult::Served(old(self).ack(*request, *result)),
                },
            ) && final(self).stats.skewed_timestamps as nat == if old(
                self,
            ).stats.skewed_timestamps + result.skewed_timestamps > u64::MAX {
                u64::MAX as nat
            } else {
                (old(self).stats.skewed_timestamps + result.skewed_timestamps) as nat
            },
    {
        if let Some(refusal) = self.refuse_push(request) {
            return refusal;
        }
        result.record_into(&mut self.stats);
        let total: u64 = (result.applied + result.skipped) as u64;
        let rejected: u64 = result.failed as u64;
        Ok(
            WireReply::ok(
                self.instance_id,
                PushAck {
                    wal_owner: request.source_instance,
                    accepted: total.saturating_sub(rejected),
                    rejected,
                    total,
                    safe_through: result.safe_through,
                },
            ),
        )
    }

    /// Whether a pull is served.
    pub open spec fn accepts_pull(self, request: PullRequest) -> bool {
        &&& request.protocol_version == SYNC_PROTOCOL_VERSION
        &&& request.target_instance == self.instance_id
        &&& request.batch_size > 0
        &&& request.reply_limit_bytes >= MIN_CONTROL_FRAME_BYTES
        &&& request.cursor.instance_id == self.instance_id
    }

    /// What is said of a pull that is addressed here but unusable.
    pub open spec fn pull_fault(self, request: PullRequest) -> Seq<char> {
        if request.batch_size == 0 {
            "pull requested zero changes"@
        } else if request.reply_limit_bytes < MIN_CONTROL_FRAME_BYTES {
            "pull declared a "@ + crate::text::decimal(request.reply_limit_bytes as nat)
                + "-byte reply limit, below the 1024-byte control minimum"@
        } else {
            "pull cursor names WAL owner "@ + crate::types::uuid_chars(
                request.cursor.instance_id.value as nat,
            ) + " but this instance is "@ + crate::types::uuid_chars(self.instance_id.value as nat)
        }
    }

    /// Whether `reply` is what a pull that is not served is answered.
    pub open spec fn is_pull_refusal(self, request: PullRequest, reply: WireReply<PullPage>) -> bool {
        if request.protocol_version != SYNC_PROTOCOL_VERSION {
            reply.refuses(
                self.instance_id,
                WireErrorCode::ProtocolVersion,
                version_refusal(request.protocol_version),
            )
        } else if request.target_instance != self.instance_id {
            reply == (WireReply::<PullPage> {
                protocol_version: SYNC_PROTOCOL_VERSION,
                responder: self.instance_id,
                result: WireResult::PeerChanged { expected: request.target_instance },
            })
        } else {
            reply.refuses(
                self.instance_id,
                WireErrorCode::InvalidRequest,
                self.pull_fault(request),
            )
        }
    }

    /// The answer to a pull that is not served, or nothing for one that is. The
    /// request alone decides.
    pub fn refuse_pull(&self, request: &PullRequest) -> (r: Option<WireReply<PullPage>>)
        ensures
            r is None <==> self.accepts_pull(*request),
            r matches Some(reply) ==> self.is_pull_refusal(*request, reply),
    {
        if request.protocol_version != SYNC_PROTOCOL_VERSION {
            let text = version_refusal_text(request.protocol_version);
            return Some(
                WireReply::rejected(
                    self.instance_id,
                    WireErrorCode::ProtocolVersion,
                    text.as_str(),
                ),
            );
        }
        if request.target_instance != self.instance_id {
            return Some(WireReply::peer_changed(self.instance_id, request.target_instance));
        }
        if request.batch_size == 0 {
            return Some(
                WireReply::rejected(
                    self.instance_id,
                    WireErrorCode::InvalidRequest,
                    "pull requested zero changes",
                ),
            );
        }
        if request.reply_limit_bytes < MIN_CONTROL_FRAME_BYTES as u64 {
            let mut s = String::from_str("pull declared a ");
            s.append(decimal_text(request.reply_limit_bytes).as_str());
            s.append("-byte reply limit, below the 1024-byte control minimum");
            return Some(
                WireReply::rejected(self.instance_id, WireErrorCode::InvalidRequest, s.as_str()),
            );
        }
        if request.cursor.instance_id != self.instance_id {
            let mut s = String::from_str("pull cursor names WAL owner ");
            s.append(request.cursor.instance_id.to_string().as_str());
            s.append(" but this instance is ");
            s.append(self.instance_id.to_string().as_str());
            return Some(
                WireReply::rejected(self.instance_id, WireErrorCode::InvalidRequest, s.as_str()),
            );
        }
        None
    }

    /// Whether `r` is the answer to a pull over `candidates` of which the longest
    /// page covers the first `n`.
    pub open spec fn is_pull_answer(
        self,
        request: PullRequest,
        candidates: Seq<LogCandidate>,
        base: usize,
        n: int,
        r: Result<WireReply<PullPage>, SyncError>,
    ) -> bool {
        let cursor = request.cursor.sequence;
        let cap = self.reply_budget(request.reply_limit_bytes);
        let batch_size = host_size(request.batch_size);
        &&& page_covers(candidates, n, base, cursor, cap, batch_size)
        &&& if n < candidates.len() && candidates[n].change is Err {
            r == Err::<WireReply<PullPage>, SyncError>(candidates[n].change->Err_0)
        } else if page_blocks(candidates, n, base, cursor, cap, batch_size) {
            r == Ok::<WireReply<PullPage>, SyncError>(
                WireReply {
                    protocol_version: SYNC_PROTOCOL_VERSION,
                    responder: self.instance_id,
                    result: WireResult::ChangeTooLarge {
                        sequence: candidates[n].change->Ok_0.unwrap().sequence,
                        needed: page_len(candidates, n + 1, base, cursor) as u64,
                        cap: cap as u64,
                    },
                },
            )
        } else {
            &&& r matches Ok(reply)
            &&& reply.protocol_version == SYNC_PROTOCOL_VERSION
            &&& reply.responder == self.instance_id
            &&& reply.result matches WireResult::Served(page)
            &&& page.changes@ == crate::sync::batch::kept(candidates.take(n))
            &&& page.has_more <==> (n < candidates.len() || candidates.len()
                >= PULL_PAGE_EVENT_LIMIT)
            &&& page.scan_position == (SyncPosition {
                instance_id: self.instance_id,
                sequence: crate::sync::batch::covered(candidates.take(n), cursor),
            })
        }
    }

    /// Answers a pull. `events` are the log events behind the requester's cursor, in
    /// order and at most a page of them, or why the log could not be read; `base`
    /// is the encoded length of the reply without changes at position zero, which with
    /// the longest position still fits the smallest control frame. A pull that is not
    /// served is refused whatever `events` says. A page with more to come has moved the
    /// requester's position.
    pub fn handle_pull(
        &self,
        request: &PullRequest,
        events: Result<Vec<LogCandidate>, String>,
        base: usize,
    ) -> (r: Result<WireReply<PullPage>, SyncError>)
        requires
            self.config.is_valid(),
            events matches Ok(c) ==> ascending(c@, request.cursor.sequence),
            base + 9 <= MIN_CONTROL_FRAME_BYTES,
        ensures
            !self.accepts_pull(*request) ==> (r matches Ok(reply) && self.is_pull_refusal(
                *request,
                reply,
            )),
            self.accepts_pull(*request) ==> match events {
                Err(t) => r matches Err(SyncError::Transport(m)) && m@
                    == "Failed to poll WAL for pull: "@ + t@,
                Ok(c) => exists|n: int| #[trigger]
                    self.is_pull_answer(
                        *request,
                        screened(c@, request.collectives),
                        base,
                        n,
                        r,
                    ),
            },
            r matches Ok(reply) ==> (reply.result matches WireResult::Served(page) ==> (
            page.has_more ==> page.scan_position.sequence > request.cursor.sequence)),
    {
        if let Some(refusal) = self.refuse_pull(request) {
            return Ok(refusal);
        }
        let batch_size: usize = to_host_size(request.batch_size);
        let cap: usize = tighter_budget(
            to_host_size(request.reply_limit_bytes),
            self.config.max_request_bytes,
        );
        let polled = match events {
            Ok(polled) => polled,
            Err(text) => {
                return Err(
                    SyncError::Transport(
                        crate::text::join("Failed to poll WAL for pull: ", text.as_str()),
                    ),
                );
            },
        };
        let count: usize = polled.len();
        let ghost raw = polled@;
        let candidates = screen(polled, &request.collectives);
        let ghost all = candidates@;
        proof {
            assert forall|i: int|
                #![trigger all[i]]
                0 <= i < all.len() implies request.cursor.sequence < all[i].sequence by {
                assert(raw[i].sequence == all[i].sequence);
            }
            assert forall|i: int, j: int|
                #![trigger all[i], all[j]]
                0 <= i < j < all.len() implies all[i].sequence < all[j].sequence by {
                assert(raw[i].sequence == all[i].sequence);
                assert(raw[j].sequence == all[j].sequence);
            }
        }
        let page = match scan_page(candidates, base, request.cursor.sequence, cap, batch_size) {
            Ok(page) => page,
            Err(e) => {
                proof {
                    let n = choose|n: int|
                        {
                            &&& #[trigger] page_covers(
                                all,
                                n,
                                base,
                                request.cursor.sequence,
                                cap,
                                batch_size,
                            )
                            &&& n < all.len()
                            &&& all[n].change == Err::<Option<SyncChange>, SyncError>(e)
                        };
                    assert(self.is_pull_answer(
                        *request,
                        all,
                        base,
                        n,
                        Err::<WireReply<PullPage>, SyncError>(e),
                    ));
                }
                return Err(e);
            },
        };
        let ghost n: int = page.taken as int;
        if let Some((sequence, needed)) = page.too_large {
            let reply: WireReply<PullPage> = WireReply {
                protocol_version: SYNC_PROTOCOL_VERSION,
                responder: self.instance_id,
                result: WireResult::ChangeTooLarge {
                    sequence,
                    needed: needed as u64,
                    cap: cap as u64,
                },
            };
            assert(self.is_pull_answer(
                *request,
                all,
                base,
                n,
                Ok::<WireReply<PullPage>, SyncError>(reply),
            ));
            return Ok(reply);
        }
        let has_more = page.taken < count || count >= PULL_PAGE_EVENT_LIMIT;
        proof {
            if has_more {
                if n == 0 {
                    law_pull_progresses(
                        all,
                        n,
                        base,
                        request.cursor.sequence,
                        cap,
                        batch_size,
                    );
                }
                assert(all.take(n).last() == all[n - 1]);
            }
        }
        let reply = WireReply::ok(
            self.instance_id,
            PullPage {
                changes: page.changes,
                has_more,
                scan_position: SyncPosition::new(self.instance_id, page.scanned),
            },
        );
        assert(self.is_pull_answer(
            *request,
            all,
            base,
            n,
            Ok::<WireReply<PullPage>, SyncError>(reply),
        ));
        Ok(reply)
    }

    /// Runs a request body through the byte cap and the frame header of `operation`,
    /// hands what is inside to `serve`, and frames what it answers within the cap.
    fn handle_bytes<F: FnOnce(&[u8]) -> Result<Vec<u8>, SyncError>>(
        &self,
        operation: WireOperation,
        body: &[u8],
        serve: F,
    ) -> (reply: Result<Vec<u8>, SyncError>)
        requires
            forall|inner: &[u8]| #[trigger] serve.requires((inner,)),
        ensures
            self.is_byte_answer(operation, body@, serve, reply),
    {
        match unframe_bounded(operation, body, self.config.max_request_bytes) {
            Err(e) => Err(e),
            Ok(inner) => match serve(inner) {
                Err(e) => Err(e),
                Ok(answer) => frame_bounded(
                    operation,
                    answer.as_slice(),
                    self.config.max_request_bytes,
                ),
            },
        }
    }

    /// Whether `reply` is what a request body is answered: a body over the cap or
    /// with the wrong header is refused before `serve` sees any of it, and an
    /// answer over the cap is not sent.
    pub open spec fn is_byte_answer<F: FnOnce(&[u8]) -> Result<Vec<u8>, SyncError>>(
        self,
        operation: WireOperation,
        body: Seq<u8>,
        serve: F,
        reply: Result<Vec<u8>, SyncError>,
    ) -> bool {
        let max = self.config.max_request_bytes;
        match crate::sync::wire::bounded_read(operation, body, max) {
            Err(e) => reply == Err::<Vec<u8>, SyncError>(e),
            Ok(_) => exists|inner: &[u8], answer: Result<Vec<u8>, SyncError>|
                {
                    &&& inner@ == body.skip(crate::sync::SYNC_WIRE_PREAMBLE_LEN as int)
                    &&& #[trigger] serve.ensures((inner,), answer)
                    &&& match answer {
                        Err(e) => reply == Err::<Vec<u8>, SyncError>(e),
                        Ok(bytes) => {
                            let size = crate::sync::wire::saturated(
                                bytes@.len() + crate::sync::SYNC_WIRE_PREAMBLE_LEN as nat,
                            );
                            if size <= max {
                                reply matches Ok(framed) && framed@
                                    == crate::sync::wire::frame_header(operation) + bytes@
                            } else {
                                reply == Err::<Vec<u8>, SyncError>(
                                    SyncError::PayloadTooLarge { size: size as usize, max },
                                )
                            }
                        },
                    }
                },
        }
    }

    /// Answers a handshake body; `serve` decodes, handles and encodes the message.
    pub fn handle_handshake_bytes<F: FnOnce(&[u8]) -> Result<Vec<u8>, SyncError>>(
        &self,
        body: &[u8],
        serve: F,
    ) -> (reply: Result<Vec<u8>, SyncError>)
        requires
            forall|inner: &[u8]| #[trigger] serve.requires((inner,)),
        ensures
            self.is_byte_answer(WireOperation::Handshake, body@, serve, reply),
    {
        self.handle_bytes(WireOperation::Handshake, body, serve)
    }

    /// Answers a push body; `serve` decodes, handles and encodes the message.
    pub fn handle_push_bytes<F: FnOnce(&[u8]) -> Result<Vec<u8>, SyncError>>(
        &self,
        body: &[u8],
        serve: F,
    ) -> (reply: Result<Vec<u8>, SyncError>)
        requires
            forall|inner: &[u8]| #[trigger] serve.requires((inner,)),
        ensures
            self.is_byte_answer(WireOperation::Push, body@, serve, reply),
    {
        self.handle_bytes(WireOperation::Push, body, serve)
    }

    /// Answers a pull body; `serve` decodes, handles and encodes the message.
    pub fn handle_pull_bytes<F: FnOnce(&[u8]) -> Result<Vec<u8>, SyncError>>(
        &self,
        body: &[u8],
        serve: F,
    ) -> (reply: Result<Vec<u8>, SyncError>)
        requires
            forall|inner: &[u8]| #[trigger] serve.requires((inner,)),
        ensures
            self.is_byte_answer(WireOperation::Pull, body@, serve, reply),
    {
        self.handle_bytes(WireOperation::Pull, body, serve)
    }

    /// Answers a health check: the store could be read, or why not. It says that
    /// something listens, not who.
    pub fn handle_health(&self, sequence: Result<u64, String>) -> (r: Result<(), SyncError>)
        ensures
            r is Ok <==> sequence is Ok,
            r matches Err(e) ==> (e matches SyncError::Transport(m) && (sequence matches Err(t)
                && m@ == "Health check failed: "@ + t@)),
    {
        match sequence {
            Ok(_) => Ok(()),
            Err(text) => Err(
                SyncError::Transport(crate::text::join("Health check failed: ", text.as_str())),
            ),
        }
    }
}

// ---------------------------------------------------------------------------
// What the server promises
// ---------------------------------------------------------------------------

/// A served page fits the reply budget and the requested count, wherever the empty
/// page does.
pub proof fn law_page_fits(
    candidates: Seq<LogCandidate>,
    n: int,
    base: usize,
    cursor: u64,
    cap: usize,
    batch_size: usize,
)
    requires
        page_covers(candidates, n, base, cursor, cap, batch_size),
        envelope_at(base, cursor) <= cap,
    ensures
        page_len(candidates, n, base, cursor) <= cap,
        crate::sync::batch::kept(candidates.take(n)).len() <= batch_size,
{
    lemma_page_prefix_fits(candidates, n, base, cursor, cap, batch_size);
}

proof fn lemma_page_prefix_fits(
    candidates: Seq<LogCandidate>,
    k: int,
    base: usize,
    cursor: u64,
    cap: usize,
    batch_size: usize,
)
    requires
        0 <= k <= candidates.len(),
        forall|j: int|
            0 <= j < k ==> #[trigger] page_extends(candidates, j, base, cursor, cap, batch_size),
        envelope_at(base, cursor) <= cap,
    ensures
        page_len(candidates, k, base, cursor) <= cap,
        crate::sync::batch::kept(candidates.take(k)).len() <= batch_size,
    decreases k,
{
    if k == 0 {
        assert(candidates.take(0) =~= Seq::empty());
        assert(crate::bytes::varint(0).len() == 1);
    } else {
        assert(page_extends(candidates, k - 1, base, cursor, cap, batch_size));
        crate::sync::batch::lemma_take_next(candidates, k - 1);
        lemma_page_prefix_fits(candidates, k - 1, base, cursor, cap, batch_size);
    }
}

/// A page never holds more changes than were asked for.
pub proof fn lemma_page_count(
    candidates: Seq<LogCandidate>,
    k: int,
    base: usize,
    cursor: u64,
    cap: usize,
    batch_size: usize,
)
    requires
        0 <= k <= candidates.len(),
        forall|j: int|
            0 <= j < k ==> #[trigger] page_extends(candidates, j, base, cursor, cap, batch_size),
    ensures
        crate::sync::batch::kept(candidates.take(k)).len() <= batch_size,
    decreases k,
{
    if k == 0 {
        assert(candidates.take(0) =~= Seq::empty());
    } else {
        assert(page_extends(candidates, k - 1, base, cursor, cap, batch_size));
        crate::sync::batch::lemma_take_next(candidates, k - 1);
        lemma_page_count(candidates, k - 1, base, cursor, cap, batch_size);
    }
}

/// A pull never stalls: where there are events, the first of them readable, and
/// the empty page fits at any position, either the page covers at least one of
/// them, or the first is a change that no page can carry.
pub proof fn law_pull_progresses(
    candidates: Seq<LogCandidate>,
    n: int,
    base: usize,
    cursor: u64,
    cap: usize,
    batch_size: usize,
)
    requires
        page_covers(candidates, n, base, cursor, cap, batch_size),
        candidates.len() > 0,
        candidates[0].change is Ok,
        batch_size > 0,
        base + 9 <= cap,
    ensures
        n > 0 || page_blocks(candidates, 0, base, cursor, cap, batch_size),
{
    assert(candidates.take(0) =~= Seq::empty());
    crate::sync::batch::lemma_take_next(candidates, 0);
    if n == 0 {
        assert(!page_extends(candidates, 0, base, cursor, cap, batch_size));
        if candidates[0].change == Ok::<Option<SyncChange>, SyncError>(None) {
            let at = candidates[0].sequence;
            assert(crate::sync::batch::kept(candidates.take(0)).len() == 0);
            assert(crate::sync::batch::kept_bytes(candidates.take(0)) == 0);
            assert(crate::sync::batch::kept(candidates.take(1)).len() == 0);
            assert(crate::sync::batch::kept_bytes(candidates.take(1)) == 0);
            crate::bytes::law_varint_len_monotonic(at as nat, u64::MAX as nat);
            assert(crate::bytes::varint(u64::MAX as nat).len() <= 10) by {
                reveal_with_fuel(crate::bytes::varint, 10);
            }
            assert(crate::bytes::varint(0).len() == 1);
        }
    }
}

/// A page that reports no more covers every event it was served from.
pub proof fn law_no_more_means_exhausted(
    server: SyncServer,
    request: PullRequest,
    candidates: Seq<LogCandidate>,
    base: usize,
    n: int,
    reply: WireReply<PullPage>,
    page: PullPage,
)
    requires
        server.is_pull_answer(
            request,
            candidates,
            base,
            n,
            Ok::<WireReply<PullPage>, SyncError>(reply),
        ),
        reply.result == WireResult::Served(page),
        !page.has_more,
    ensures
        n == candidates.len(),
        page.changes@ == crate::sync::batch::kept(candidates),
        candidates.len() < PULL_PAGE_EVENT_LIMIT,
{
    assert(candidates.take(candidates.len() as int) =~= candidates);
}

proof fn lemma_failures_bounded(outcomes: Seq<crate::sync::applier::ChangeOutcome>)
    ensures
        crate::sync::applier::failures(outcomes).len() <= outcomes.len(),
    decreases outcomes.len(),
{
    if outcomes.len() > 0 {
        lemma_failures_bounded(outcomes.drop_last());
    }
}

/// The acknowledgement of a batch passes the sender's own validation.
pub proof fn law_ack_is_valid_for_the_sender(
    server: SyncServer,
    request: PushRequest,
    outcomes: Seq<crate::sync::applier::ChangeOutcome>,
    result: ApplyResult,
    sent: Seq<u64>,
)
    requires
        sent.len() == request.changes@.len() == outcomes.len(),
        forall|i: int| #![trigger outcomes[i]] 0 <= i < sent.len() ==> outcomes[i].sequence == sent[i],
        outcomes.len() <= usize::MAX,
        result.applied + result.skipped == outcomes.len(),
        result.failed as nat == crate::sync::applier::failures(outcomes).len(),
        crate::sync::applier::is_safe_through(outcomes, result.safe_through),
    ensures
        crate::sync::pusher::ack_matches(
            server.ack(request, result),
            request.source_instance,
            sent,
        ),
{
    lemma_failures_bounded(outcomes);
    if let Some(position) = result.safe_through {
        let i = choose|i: int|
            #![trigger outcomes[i]]
            0 <= i < outcomes.len() && outcomes[i].sequence == position;
        assert(sent[i] == position);
    }
}

/// What an instance packs of its own log is consistent: a server it reaches does not
/// refuse the batch for its metadata.
pub proof fn law_packed_push_is_consistent(
    request: PushRequest,
    candidates: Seq<LogCandidate>,
    n: int,
    position: u64,
)
    requires
        0 <= n <= candidates.len(),
        ascending(candidates, position),
        crate::sync::batch::authored(candidates, request.source_instance),
        request.changes@ == crate::sync::batch::kept(candidates.take(n)),
    ensures
        consistent(request),
{
    let changes = request.changes@;
    let source = request.source_instance;
    let through = crate::sync::batch::covered(candidates.take(n), position);
    crate::sync::batch::law_sent_changes_run(candidates, n, source, position);
    assert(crate::sync::batch::runs(changes, source, position, through));
}

/// A push addressed to another instance leaves no trace: it is answered from its
/// metadata and no counter moves, whatever was claimed of its changes.
pub proof fn law_misrouted_push_is_answered_only(server: SyncServer, request: PushRequest)
    requires
        request.protocol_version == SYNC_PROTOCOL_VERSION,
        request.target_instance != server.instance_id,
    ensures
        !server.accepts_push(request),
        server.is_push_refusal(
            request,
            Ok::<WireReply<PushAck>, SyncError>(
                WireReply {
                    protocol_version: SYNC_PROTOCOL_VERSION,
                    responder: server.instance_id,
                    result: WireResult::PeerChanged { expected: request.target_instance },
                },
            ),
        ),
{
}

} // verus!
