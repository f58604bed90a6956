//! What a peer's request is answered.

use vstd::prelude::*;

use crate::error::ValidationError;
use crate::sync::applier::ApplyResult;
use crate::sync::batch::{covered, kept, LogCandidate};
use crate::sync::config::{SyncConfig, SyncDirection};
use crate::sync::error::SyncError;
use crate::sync::server::{
    advance_scan_within_cap, note_sequence, page_covers, page_extends, scan_page, screen, screened, to_host_size, validate_batch_metadata,
    ScannedPage, SyncServer,
};
use crate::sync::types::{
    bound_wire_detail, HandshakeRequest, HandshakeResponse, PullPage, PullRequest, PushAck,
    PushRequest, SyncChange, WireErrorCode, WireReply, WireResult,
};
use crate::sync::wire::{
    check_consumed, frame_bounded, frame_len, read_header, unframe_bounded, write_header,
    FrameSizer, WireOperation,
};
use crate::sync::{read_wire_preamble, write_wire_preamble, SYNC_PROTOCOL_VERSION};
use crate::types::{CollectiveId, InstanceId};

verus! {

// ---------------------------------------------------------------------------
// Settings
// ---------------------------------------------------------------------------

/// Settings are usable exactly where a batch may hold something, both intervals are positive
/// and a body may take at least 1024 bytes. A server is made of usable settings only, and
/// starts with nothing counted.
pub proof fn law_usable_settings(
    config: &SyncConfig,
    r: Result<(), ValidationError>,
    id: InstanceId,
    owned: SyncConfig,
    server: Result<SyncServer, SyncError>,
)
    requires
        call_ensures(SyncConfig::validate, (config,), r),
        owned == *config,
        call_ensures(SyncServer::new, (id, owned), server),
    ensures
        r is Ok <==> config.batch_size > 0 && config.push_interval_ms > 0
            && config.pull_interval_ms > 0 && config.max_request_bytes >= 1024,
        server is Ok <==> r is Ok,
        server is Ok ==> {
            &&& server->Ok_0.instance_id == id
            &&& server->Ok_0.config == *config
            &&& server->Ok_0.stats.skewed_timestamps == 0
        },
{
}

/// Changes are fetched under every direction but pushing alone, and sent under every
/// direction but pulling alone.
pub proof fn law_directions(direction: SyncDirection, pulls: bool, pushes: bool)
    requires
        call_ensures(SyncDirection::pulls, (direction,), pulls),
        call_ensures(SyncDirection::pushes, (direction,), pushes),
    ensures
        direction is PushOnly ==> pushes && !pulls,
        direction is PullOnly ==> pulls && !pushes,
        direction is Bidirectional ==> pulls && pushes,
{
}

// ---------------------------------------------------------------------------
// Handshakes
// ---------------------------------------------------------------------------

/// A handshake that lists at most sixteen capabilities of at most thirty-two bytes each is
/// answered, by this instance and under its own protocol version, with how much it receives.
/// It is accepted exactly where it declares that same version; a reason is given exactly
/// where it is not. Any other handshake is refused.
pub proof fn law_handshake(
    server: &SyncServer,
    request: HandshakeRequest,
    r: Result<HandshakeResponse, SyncError>,
)
    requires
        call_ensures(SyncServer::handle_handshake, (server, request), r),
    ensures
        r is Ok <==> request.capabilities@.len() <= 16 && forall|i: int|
            0 <= i < request.capabilities@.len() ==> vstd::utf8::encode_utf8(
                (#[trigger] request.capabilities@[i])@,
            ).len() <= 32,
        r is Ok ==> {
            &&& r->Ok_0.instance_id == server.instance_id
            &&& r->Ok_0.protocol_version == SYNC_PROTOCOL_VERSION
            &&& r->Ok_0.receive_limit_bytes == server.config.max_request_bytes
            &&& r->Ok_0.accepted <==> request.protocol_version == SYNC_PROTOCOL_VERSION
            &&& r->Ok_0.reason is Some <==> !r->Ok_0.accepted
        },
{
    assert(r is Ok <==> request.in_bounds());
    if request.in_bounds() {
        assert forall|i: int| 0 <= i < request.capabilities@.len() implies vstd::utf8::encode_utf8(
            (#[trigger] request.capabilities@[i])@,
        ).len() <= 32 by {
            assert(crate::sync::types::byte_len(request.capabilities@[i]) <= 32);
        }
    }
}

/// A reason that travels is a leading part of the text, takes at most 256 bytes, and is the
/// whole text where that fits.
pub proof fn law_reason_is_bounded(text: &str, detail: String)
    requires
        call_ensures(bound_wire_detail, (text,), detail),
    ensures
        detail@.len() <= text@.len(),
        detail@ == text@.take(detail@.len() as int),
        vstd::utf8::encode_utf8(detail@).len() <= 256,
        vstd::utf8::encode_utf8(text@).len() <= 256 ==> detail@ == text@,
        detail@.len() < text@.len() ==> vstd::utf8::encode_utf8(
            text@.take(detail@.len() + 1int),
        ).len() > 256,
{
    crate::sync::types::law_bounded_detail(text@);
    lemma_most_chars(text@, 256);
}

proof fn lemma_most_chars(text: Seq<char>, budget: nat)
    ensures
        ({
            let n = crate::sync::types::chars_within(text, budget) as int;
            &&& n <= text.len()
            &&& n < text.len() ==> vstd::utf8::encode_utf8(text.take(n + 1)).len() > budget
        }),
    decreases text.len(),
{
    let n = crate::sync::types::chars_within(text, budget) as int;
    if vstd::utf8::encode_utf8(text).len() > budget && text.len() > 0 {
        lemma_most_chars(text.drop_last(), budget);
        if n + 1 == text.len() {
            assert(text.take(n + 1) =~= text);
        } else {
            assert(text.drop_last().take(n + 1) =~= text.take(n + 1));
        }
    }
}

// ---------------------------------------------------------------------------
// Pushes
// ---------------------------------------------------------------------------

/// Whether a batch is one instance's own: every change is of the sender, none has sequence
/// zero, and no two have the same.
pub open spec fn own_batch(request: PushRequest) -> bool {
    &&& forall|i: int|
        0 <= i < request.changes@.len() ==> {
            &&& (#[trigger] request.changes@[i]).source_instance == request.source_instance
            &&& request.changes@[i].sequence > 0
        }
    &&& forall|i: int, j: int|
        0 <= i < j < request.changes@.len() ==> (#[trigger] request.changes@[i]).sequence != (
        #[trigger] request.changes@[j]).sequence
}

proof fn lemma_own_batch(request: PushRequest)
    ensures
        own_batch(request) <==> crate::sync::server::consistent(request),
{
    if crate::sync::server::consistent(request) {
        assert forall|i: int| 0 <= i < request.changes@.len() implies {
            &&& (#[trigger] request.changes@[i]).source_instance == request.source_instance
            &&& request.changes@[i].sequence > 0
        } by {
            assert(!crate::sync::server::faulty(request, i));
        }
        assert forall|i: int, j: int| 0 <= i < j < request.changes@.len() implies (
        #[trigger] request.changes@[i]).sequence != (#[trigger] request.changes@[j]).sequence by {
            assert(!crate::sync::server::faulty(request, j));
        }
    }
    if own_batch(request) {
        assert forall|i: int| 0 <= i < request.changes@.len() implies !(
        #[trigger] crate::sync::server::faulty(request, i)) by {
            let c = request.changes@[i];
        }
        assert(forall|i: int|
            #![trigger request.changes@[i]]
            0 <= i < request.changes@.len() ==> !crate::sync::server::faulty(request, i));
    }
}

/// The metadata of a batch is accepted exactly where it is the sender's own batch.
pub proof fn law_batch_metadata(request: &PushRequest, r: Result<(), String>)
    requires
        call_ensures(validate_batch_metadata, (request,), r),
    ensures
        r is Ok <==> own_batch(*request),
{
    lemma_own_batch(*request);
}

/// A push is acted on exactly where it is of this protocol version, addressed to this
/// instance and the sender's own batch, and its answer can be sent: both sides take at least
/// 1024 bytes. A push of another version is rejected as such, one for another instance is told
/// so, and an inconsistent one is rejected as invalid.
pub proof fn law_refused_push(
    server: &SyncServer,
    request: &PushRequest,
    r: Option<Result<WireReply<PushAck>, SyncError>>,
)
    requires
        call_ensures(SyncServer::refuse_push, (server, request), r),
    ensures
        r is None <==> {
            &&& request.protocol_version == SYNC_PROTOCOL_VERSION
            &&& request.target_instance == server.instance_id
            &&& own_batch(*request)
            &&& request.reply_limit_bytes >= 1024
            &&& server.config.max_request_bytes >= 1024
        },
        r is Some && r->Some_0 is Ok ==> r->Some_0->Ok_0.responder == server.instance_id
            && r->Some_0->Ok_0.protocol_version == SYNC_PROTOCOL_VERSION,
        request.protocol_version != SYNC_PROTOCOL_VERSION ==> r is Some && r->Some_0 is Ok
            && r->Some_0->Ok_0.result is Rejected && r->Some_0->Ok_0.result->code
            == WireErrorCode::ProtocolVersion,
        request.protocol_version == SYNC_PROTOCOL_VERSION && request.target_instance
            != server.instance_id ==> r is Some && r->Some_0 is Ok && r->Some_0->Ok_0.result
            is PeerChanged && r->Some_0->Ok_0.result->expected == request.target_instance,
        request.protocol_version == SYNC_PROTOCOL_VERSION && request.target_instance
            == server.instance_id && !own_batch(*request) ==> r is Some && r->Some_0 is Ok
            && r->Some_0->Ok_0.result is Rejected && r->Some_0->Ok_0.result->code
            == WireErrorCode::InvalidRequest,
        request.protocol_version == SYNC_PROTOCOL_VERSION && request.target_instance
            == server.instance_id && own_batch(*request) && r is Some ==> r->Some_0 is Err
            && r->Some_0->Err_0 is PayloadTooLarge,
{
    lemma_own_batch(*request);
    lemma_budget(*server, request.reply_limit_bytes);
    if r is Some {
        assert(server.is_push_refusal(*request, r->Some_0));
    }
}

/// What can be sent back is the smaller of what the requester reads and this instance builds.
proof fn lemma_budget(server: SyncServer, limit: u64)
    ensures
        server.reply_budget(limit) <= server.config.max_request_bytes,
        server.reply_budget(limit) <= limit || limit > usize::MAX,
        server.reply_budget(limit) >= 1024 <==> limit >= 1024 && server.config.max_request_bytes
            >= 1024,
        server.reply_budget(limit) == limit || server.reply_budget(limit)
            == server.config.max_request_bytes,
{
}

/// A batch is acknowledged for the sender's log with every change that ended: as many
/// rejected as failed, the rest accepted, and safe through the position that the outcomes make
/// safe.
pub proof fn law_acknowledgement(server: SyncServer, request: PushRequest, result: ApplyResult)
    requires
        result.applied + result.skipped <= usize::MAX,
        result.failed <= result.skipped,
    ensures
        server.ack(request, result).wal_owner == request.source_instance,
        server.ack(request, result).total == result.applied + result.skipped,
        server.ack(request, result).rejected == result.failed,
        server.ack(request, result).accepted == result.applied + result.skipped - result.failed,
        server.ack(request, result).safe_through == result.safe_through,
{
}

/// A number from the wire is taken as it is wherever this machine can hold it.
pub proof fn law_host_size(n: u64, size: usize)
    requires
        call_ensures(to_host_size, (n,), size),
    ensures
        n <= usize::MAX ==> size == n,
        n > usize::MAX ==> size == usize::MAX,
{
}

// ---------------------------------------------------------------------------
// Pulls
// ---------------------------------------------------------------------------

/// A pull is served exactly where it is of this protocol version, addressed to this instance,
/// asks for something, can read at least 1024 bytes and continues from a position in this
/// instance's own log. One of another version is rejected as such, one for another instance is
/// told so, and any other is rejected as invalid.
pub proof fn law_refused_pull(
    server: &SyncServer,
    request: &PullRequest,
    r: Option<WireReply<PullPage>>,
)
    requires
        call_ensures(SyncServer::refuse_pull, (server, request), r),
    ensures
        r is None <==> {
            &&& request.protocol_version == SYNC_PROTOCOL_VERSION
            &&& request.target_instance == server.instance_id
            &&& request.batch_size > 0
            &&& request.reply_limit_bytes >= 1024
            &&& request.cursor.instance_id == server.instance_id
        },
        r is Some ==> r->Some_0.responder == server.instance_id && r->Some_0.protocol_version
            == SYNC_PROTOCOL_VERSION,
        request.protocol_version != SYNC_PROTOCOL_VERSION ==> r is Some && r->Some_0.result
            is Rejected && r->Some_0.result->code == WireErrorCode::ProtocolVersion,
        request.protocol_version == SYNC_PROTOCOL_VERSION && request.target_instance
            != server.instance_id ==> r is Some && r->Some_0.result is PeerChanged
            && r->Some_0.result->expected == request.target_instance,
        request.protocol_version == SYNC_PROTOCOL_VERSION && request.target_instance
            == server.instance_id && r is Some ==> r->Some_0.result is Rejected
            && r->Some_0.result->code == WireErrorCode::InvalidRequest,
{
    if r is Some {
        assert(server.is_pull_refusal(*request, r->Some_0));
    }
}

/// Screening keeps every event and its place, and drops exactly the changes of collectives
/// that were not asked for.
pub proof fn law_screening(
    candidates: Vec<LogCandidate>,
    filter: &Option<Vec<CollectiveId>>,
    screened_events: Vec<LogCandidate>,
    i: int,
)
    requires
        call_ensures(screen, (candidates, filter), screened_events),
    ensures
        screened_events@.len() == candidates@.len(),
        0 <= i < candidates@.len() ==> {
            let before = candidates@[i];
            let after = screened_events@[i];
            &&& after.sequence == before.sequence
            &&& after.item_len == before.item_len
            &&& before.change is Err ==> after.change == before.change
            &&& before.change is Ok && before.change->Ok_0 is None ==> after.change is Ok
                && after.change->Ok_0 is None
            &&& before.change is Ok && before.change->Ok_0 is Some ==> {
                let asked = *filter is None || filter->Some_0@.contains(
                    before.change->Ok_0->Some_0.collective_id,
                );
                &&& asked ==> after.change == before.change
                &&& !asked ==> after.change is Ok && after.change->Ok_0 is None
            }
        },
{
    if 0 <= i < candidates@.len() {
        assert(screened_events@[i] == screened(candidates@, *filter)[i]);
    }
}

/// Size of the reply that carries the changes among `events` and reports how far they reach,
/// where the reply without changes takes `base` bytes at position zero.
pub open spec fn reply_size(events: Seq<LogCandidate>, base: usize, cursor: u64) -> nat {
    let width = crate::bytes::varint(covered(events, cursor) as nat).len();
    frame_len(
        (base + width - 1) as nat,
        kept(events).len(),
        crate::sync::batch::kept_bytes(events),
    )
}

/// A page covers events from the first on, carries exactly their changes and reports how far
/// they reach. It holds no more changes than asked for, and fits the reply budget wherever the
/// empty page does. It ends before the last event only where that event's change would be one
/// too many, or where the reply that covers it would not fit.
pub proof fn law_longest_page(
    candidates: Vec<LogCandidate>,
    base: usize,
    cursor: u64,
    cap: usize,
    batch_size: usize,
    r: Result<ScannedPage, SyncError>,
)
    requires
        crate::sync::server::ascending(candidates@, cursor),
        base + 10 <= usize::MAX,
        base + 9 <= cap,
        call_ensures(scan_page, (candidates, base, cursor, cap, batch_size), r),
    ensures
        r is Ok ==> {
            let n = r->Ok_0.taken as int;
            let events = candidates@.take(n);
            &&& 0 <= n <= candidates@.len()
            &&& r->Ok_0.changes@ == kept(events)
            &&& r->Ok_0.scanned == covered(events, cursor)
            &&& kept(events).len() <= batch_size
            &&& reply_size(events, base, cursor) <= cap
            &&& n < candidates@.len() ==> candidates@[n].change is Ok && {
                ||| reply_size(candidates@.take(n + 1), base, cursor) > cap
                ||| candidates@[n].change->Ok_0 is Some && kept(events).len() == batch_size
            }
        },
        r is Err ==> exists|n: int|
            {
                &&& 0 <= n < candidates@.len()
                &&& (#[trigger] candidates@[n]).change is Err
                &&& r->Err_0 == candidates@[n].change->Err_0
            },
        (forall|i: int| 0 <= i < candidates@.len() ==> (#[trigger] candidates@[i]).change is Ok)
            ==> r is Ok,
{
    if r is Ok {
        let n = r->Ok_0.taken as int;
        assert(page_covers(candidates@, n, base, cursor, cap, batch_size));
        crate::bytes::law_varint_len_monotonic(cursor as nat, u64::MAX as nat);
        assert(crate::bytes::varint(u64::MAX as nat).len() <= 10) by {
            reveal_with_fuel(crate::bytes::varint, 10);
        }
        crate::sync::server::law_page_fits(candidates@, n, base, cursor, cap, batch_size);
        if n < candidates@.len() {
            assert(!page_extends(candidates@, n, base, cursor, cap, batch_size));
        }
    } else {
        let n = choose|n: int|
            {
                &&& #[trigger] page_covers(candidates@, n, base, cursor, cap, batch_size)
                &&& n < candidates@.len()
                &&& candidates@[n].change == Err::<Option<SyncChange>, SyncError>(r->Err_0)
            };
        assert(candidates@[n].change is Err);
    }
}

/// Where a page says that a change is too large for any page, the page is empty and has not
/// moved; that change is named by its sequence, with the size that its reply would take, which
/// exceeds the budget. Otherwise a page that covers nothing of what it was given either was
/// asked for nothing or could not report the first event's position within the budget.
pub proof fn law_change_too_large_for_a_page(
    candidates: Vec<LogCandidate>,
    base: usize,
    cursor: u64,
    cap: usize,
    batch_size: usize,
    r: Result<ScannedPage, SyncError>,
)
    requires
        crate::sync::server::ascending(candidates@, cursor),
        base + 10 <= usize::MAX,
        base + 9 <= cap,
        call_ensures(scan_page, (candidates, base, cursor, cap, batch_size), r),
        r is Ok,
    ensures
        r->Ok_0.too_large is Some ==> {
            let n = r->Ok_0.taken as int;
            &&& n < candidates@.len()
            &&& candidates@[n].change is Ok && candidates@[n].change->Ok_0 is Some
            &&& r->Ok_0.changes@.len() == 0
            &&& r->Ok_0.scanned == cursor
            &&& r->Ok_0.too_large->Some_0.0 == candidates@[n].change->Ok_0->Some_0.sequence
            &&& r->Ok_0.too_large->Some_0.1 == reply_size(candidates@.take(n + 1), base, cursor)
            &&& r->Ok_0.too_large->Some_0.1 > cap
        },
        r->Ok_0.too_large is None && batch_size > 0 && candidates@.len() > 0
            ==> r->Ok_0.scanned > cursor,
{
    let n = r->Ok_0.taken as int;
    let all = candidates@;
    assert(page_covers(all, n, base, cursor, cap, batch_size));
    if n > 0 {
        assert(all.take(n).last() == all[n - 1]);
    } else if all.len() > 0 && batch_size > 0 {
        crate::sync::server::law_pull_progresses(all, n, base, cursor, cap, batch_size);
    }
}

/// Whether `page` is what is served of `events`: the changes of the longest run of them that
/// fits, how far that run reaches in the log of `server`, and that there may be more exactly
/// where an event was left or as many were read as are read at once.
pub open spec fn serves(
    page: PullPage,
    server: SyncServer,
    events: Seq<LogCandidate>,
    n: int,
    cursor: u64,
) -> bool {
    &&& 0 <= n <= events.len()
    &&& page.changes@ == kept(events.take(n))
    &&& page.scan_position.instance_id == server.instance_id
    &&& page.scan_position.sequence == covered(events.take(n), cursor)
    &&& page.has_more <==> n < events.len() || events.len() >= 1000
}

/// A served pull carries the changes that were asked for, of events from the first behind the
/// cursor on; it holds no more of them than asked for and its reply fits what both sides take.
/// It comes from this instance under its protocol version, and one with more to come has moved
/// the position.
pub proof fn law_served_pull(
    server: &SyncServer,
    request: &PullRequest,
    events: Result<Vec<LogCandidate>, String>,
    base: usize,
    filter: &Option<Vec<CollectiveId>>,
    asked: Vec<LogCandidate>,
    read: Vec<LogCandidate>,
    r: Result<WireReply<PullPage>, SyncError>,
)
    requires
        server.config.is_valid(),
        events is Ok,
        events->Ok_0 == read,
        crate::sync::server::ascending(read@, request.cursor.sequence),
        base + 9 <= crate::sync::wire::MIN_CONTROL_FRAME_BYTES,
        *filter == request.collectives,
        call_ensures(screen, (read, filter), asked),
        request.protocol_version == SYNC_PROTOCOL_VERSION,
        request.target_instance == server.instance_id,
        request.batch_size > 0,
        request.reply_limit_bytes >= 1024,
        request.cursor.instance_id == server.instance_id,
        call_ensures(SyncServer::handle_pull, (server, request, events, base), r),
        r is Ok,
    ensures
        r->Ok_0.responder == server.instance_id,
        r->Ok_0.protocol_version == SYNC_PROTOCOL_VERSION,
        r->Ok_0.result is Served || r->Ok_0.result is ChangeTooLarge,
        r->Ok_0.result is Served ==> exists|n: int|
            {
                let size = reply_size(asked@.take(n), base, request.cursor.sequence);
                &&& #[trigger] serves(
                    r->Ok_0.result->Served_0,
                    *server,
                    asked@,
                    n,
                    request.cursor.sequence,
                )
                &&& kept(asked@.take(n)).len() <= request.batch_size
                &&& size <= server.config.max_request_bytes
                &&& size <= request.reply_limit_bytes
            },
        r->Ok_0.result is Served && r->Ok_0.result->Served_0.has_more
            ==> r->Ok_0.result->Served_0.scan_position.sequence > request.cursor.sequence,
{
    let cursor = request.cursor.sequence;
    let cap = server.reply_budget(request.reply_limit_bytes);
    let batch_size = crate::sync::server::host_size(request.batch_size);
    assert(asked@ == screened(read@, request.collectives));
    let n = choose|n: int| #[trigger]
        server.is_pull_answer(
            *request,
            screened(read@, request.collectives),
            base,
            n,
            r,
        );
    assert(server.is_pull_answer(*request, asked@, base, n, r));
    crate::bytes::law_varint_len_monotonic(cursor as nat, u64::MAX as nat);
    assert(crate::bytes::varint(u64::MAX as nat).len() <= 10) by {
        reveal_with_fuel(crate::bytes::varint, 10);
    }
    lemma_budget(*server, request.reply_limit_bytes);
    assert(page_covers(asked@, n, base, cursor, cap, batch_size));
    crate::sync::server::law_page_fits(asked@, n, base, cursor, cap, batch_size);
    if r->Ok_0.result is Served {
        assert(serves(r->Ok_0.result->Served_0, *server, asked@, n, cursor));
    }
}

// ---------------------------------------------------------------------------
// Answers
// ---------------------------------------------------------------------------

/// An answer counts as served exactly where the instance that was asked gave it, under this
/// protocol version, and served it; and then it is what was served.
pub proof fn law_answer<T>(
    reply: WireReply<T>,
    expected: InstanceId,
    r: Result<T, SyncError>,
)
    requires
        call_ensures(WireReply::<T>::into_result, (reply, expected), r),
    ensures
        r is Ok <==> reply.responder == expected && reply.protocol_version == SYNC_PROTOCOL_VERSION
            && reply.result is Served,
        r is Ok ==> reply.result == WireResult::Served(r->Ok_0),
        reply.responder != expected ==> r->Err_0 == (SyncError::PeerChanged {
            expected,
            responder: reply.responder,
        }),
        reply.responder == expected && reply.protocol_version != SYNC_PROTOCOL_VERSION
            ==> r->Err_0 == (SyncError::ProtocolVersion {
            local: SYNC_PROTOCOL_VERSION,
            remote: reply.protocol_version,
        }),
        reply.responder == expected && reply.protocol_version == SYNC_PROTOCOL_VERSION ==> {
            &&& reply.result is Rejected ==> r->Err_0 == (SyncError::RemoteRejected {
                code: reply.result->code,
                detail: reply.result->detail,
            })
            &&& reply.result is ChangeTooLarge ==> r->Err_0 == (SyncError::ChangeTooLarge {
                sequence: reply.result->sequence,
                needed: reply.result->needed,
                cap: reply.result->cap,
            })
            &&& reply.result is PeerChanged ==> r->Err_0 is PeerChanged
        },
{
}

// ---------------------------------------------------------------------------
// Frames
// ---------------------------------------------------------------------------

/// Every frame opens with two magic bytes, the format and the operation, and holds the body
/// behind them.
pub proof fn law_written_frame(
    operation: WireOperation,
    body: &[u8],
    header: [u8; 4],
    framed: Vec<u8>,
)
    requires
        call_ensures(write_header, (operation,), header),
        call_ensures(write_wire_preamble, (operation, body), framed),
    ensures
        header@ == seq![
            0xFEu8,
            0xEDu8,
            4u8,
            match operation {
                WireOperation::Handshake => 1u8,
                WireOperation::Push => 2u8,
                WireOperation::Pull => 3u8,
            },
        ],
        framed@ == header@ + body@,
{
}

/// A frame is read exactly where it is long enough, opens with the two magic bytes and the
/// format, and is of the operation it is read for; what is read is all that lies behind.
pub proof fn law_read_frame(
    operation: WireOperation,
    framed: &[u8],
    read: Result<&[u8], SyncError>,
    also: Result<&[u8], SyncError>,
    header: [u8; 4],
)
    requires
        call_ensures(write_header, (operation,), header),
        call_ensures(read_header, (operation, framed), read),
        call_ensures(read_wire_preamble, (operation, framed), also),
    ensures
        read is Ok <==> framed@.len() >= 4 && framed@.take(4) == header@,
        read is Ok ==> read->Ok_0@ == framed@.skip(4),
        also is Ok <==> read is Ok,
        also is Ok ==> also->Ok_0@ == read->Ok_0@,
        framed@.len() >= 4 && framed@.take(3) == header@.take(3) && framed@[3] != header@[3]
            ==> read->Err_0 == (SyncError::WireOperationMismatch {
            expected: header@[3],
            got: framed@[3],
        }),
{
    if framed@.len() >= 4 {
        let head = framed@.take(4);
        assert(head[0] == framed@[0] && head[1] == framed@[1] && head[2] == framed@[2] && head[3]
            == framed@[3]);
        if framed@[0] == header@[0] && framed@[1] == header@[1] && framed@[2] == header@[2]
            && framed@[3] == header@[3] {
            assert(head =~= header@);
        }
        let three = framed@.take(3);
        assert(three[0] == framed@[0] && three[1] == framed@[1] && three[2] == framed@[2]);
        let own = header@.take(3);
        assert(own[0] == header@[0] && own[1] == header@[1] && own[2] == header@[2]);
    }
}

/// A body over the cap is refused with both sizes before its header is looked at; a body
/// within it is read as any frame. A frame over the cap is not built.
pub proof fn law_bounded_frames(
    operation: WireOperation,
    body: &[u8],
    cap: usize,
    inner: Result<&[u8], SyncError>,
    read: Result<&[u8], SyncError>,
    framed: Result<Vec<u8>, SyncError>,
    header: [u8; 4],
)
    requires
        body@.len() + 4 <= usize::MAX,
        call_ensures(write_header, (operation,), header),
        call_ensures(unframe_bounded, (operation, body, cap), inner),
        call_ensures(read_header, (operation, body), read),
        call_ensures(frame_bounded, (operation, body, cap), framed),
    ensures
        body@.len() > cap ==> inner is Err && inner->Err_0 == (SyncError::PayloadTooLarge {
            size: body@.len() as usize,
            max: cap,
        }),
        body@.len() <= cap ==> (inner is Ok <==> read is Ok),
        inner is Ok ==> inner->Ok_0@ == body@.skip(4),
        framed is Ok <==> body@.len() + 4 <= cap,
        framed is Ok ==> framed->Ok_0@ == header@ + body@,
        framed is Err ==> framed->Err_0 == (SyncError::PayloadTooLarge {
            size: (body@.len() + 4) as usize,
            max: cap,
        }),
{
}

/// A message is taken whole or not at all: bytes left unread refuse it.
pub proof fn law_consumed(rest: usize, r: Result<(), SyncError>)
    requires
        call_ensures(check_consumed, (rest,), r),
    ensures
        r is Ok <==> rest == 0,
{
}

/// A store that can be read is healthy, and one that cannot is not.
pub proof fn law_health(
    server: &SyncServer,
    sequence: Result<u64, String>,
    r: Result<(), SyncError>,
)
    requires
        call_ensures(SyncServer::handle_health, (server, sequence), r),
    ensures
        r is Ok <==> sequence is Ok,
{
}

/// An answer that cannot be sent is refused before anything is done for it: what can be sent is
/// the smaller of what the requester reads and this server builds, and must be at least 1024
/// bytes.
pub proof fn law_preflight(server: &SyncServer, limit: u64, r: Result<(), SyncError>)
    requires
        call_ensures(SyncServer::preflight_reply, (server, limit), r),
    ensures
        r is Ok <==> limit >= 1024 && server.config.max_request_bytes >= 1024,
        r is Err ==> r->Err_0 is PayloadTooLarge,
{
    lemma_budget(*server, limit);
}

/// A handshake is within bounds exactly where it lists at most sixteen capabilities of at most
/// thirty-two bytes each.
pub proof fn law_handshake_bounds(request: &HandshakeRequest, r: Result<(), SyncError>)
    requires
        call_ensures(HandshakeRequest::check_bounds, (request,), r),
    ensures
        r is Ok <==> request.capabilities@.len() <= 16 && forall|i: int|
            0 <= i < request.capabilities@.len() ==> vstd::utf8::encode_utf8(
                (#[trigger] request.capabilities@[i])@,
            ).len() <= 32,
{
    if request.in_bounds() {
        assert forall|i: int| 0 <= i < request.capabilities@.len() implies vstd::utf8::encode_utf8(
            (#[trigger] request.capabilities@[i])@,
        ).len() <= 32 by {
            assert(crate::sync::types::byte_len(request.capabilities@[i]) <= 32);
        }
    }
}

/// A sequence is new exactly where it was not noted before, and is noted then.
pub proof fn law_noted_sequence(
    seen: &mut std::collections::BTreeSet<u64>,
    n: u64,
    fresh: bool,
    other: u64,
)
    requires
        call_ensures(note_sequence, (seen, n), fresh),
    ensures
        fresh <==> !old(seen)@.contains(n),
        final(seen)@.contains(other) <==> old(seen)@.contains(other) || other == n,
{
}

/// The reported position of a page moves to a later event exactly where the reply that reports
/// it fits; its size then grows by what the later position takes more, and otherwise nothing
/// changes.
pub proof fn law_scan_advances(
    sizer: &mut FrameSizer,
    scanned: &mut u64,
    sequence: u64,
    cap: usize,
    r: Result<bool, SyncError>,
)
    requires
        *old(scanned) <= sequence,
        old(sizer).envelope + 10 <= usize::MAX,
        call_ensures(advance_scan_within_cap, (sizer, scanned, sequence, cap), r),
    ensures
        r is Ok,
        ({
            let wider = crate::bytes::varint(sequence as nat).len() - crate::bytes::varint(
                *old(scanned) as nat,
            ).len();
            let size = frame_len(
                (old(sizer).envelope + wider) as nat,
                old(sizer).count as nat,
                old(sizer).items as nat,
            );
            &&& r->Ok_0 <==> size <= cap
            &&& r->Ok_0 ==> {
                &&& *final(scanned) == sequence
                &&& final(sizer).envelope == old(sizer).envelope + wider
                &&& final(sizer).count == old(sizer).count
                &&& final(sizer).items == old(sizer).items
            }
            &&& !r->Ok_0 ==> *final(scanned) == *old(scanned) && *final(sizer) == *old(sizer)
        }),
{
    crate::bytes::law_varint_len_monotonic(*old(scanned) as nat, sequence as nat);
    crate::bytes::law_varint_len_monotonic(sequence as nat, u64::MAX as nat);
    crate::bytes::lemma_varint_len_pos(*old(scanned) as nat);
    assert(crate::bytes::varint(u64::MAX as nat).len() <= 10) by {
        reveal_with_fuel(crate::bytes::varint, 10);
    }
}

/// Whether a body is answered as a frame of `operation` is: one over the cap, or that is not
/// such a frame, is refused; of any other the message behind its header is served, and the
/// answer framed, unless it is over the cap.
pub open spec fn answered<F: FnOnce(&[u8]) -> Result<Vec<u8>, SyncError>>(
    server: SyncServer,
    operation: u8,
    body: Seq<u8>,
    serve: F,
    reply: Result<Vec<u8>, SyncError>,
) -> bool {
    let cap = server.config.max_request_bytes;
    let header = seq![0xFEu8, 0xEDu8, 4u8, operation];
    &&& body.len() > cap ==> reply is Err && reply->Err_0 is PayloadTooLarge
    &&& body.len() < 4 || body.take(4) != header ==> reply is Err
    &&& reply is Ok ==> exists|inner: &[u8], answer: Result<Vec<u8>, SyncError>|
        {
            &&& #[trigger] serve.ensures((inner,), answer)
            &&& inner@ == body.skip(4)
            &&& answer is Ok
            &&& reply->Ok_0@ == header + answer->Ok_0@
            &&& reply->Ok_0@.len() <= cap
        }
    &&& 4 <= body.len() <= cap && body.take(4) == header && reply is Err ==> exists|
        inner: &[u8],
        answer: Result<Vec<u8>, SyncError>,
    |
        {
            &&& #[trigger] serve.ensures((inner,), answer)
            &&& inner@ == body.skip(4)
            &&& answer is Err ==> reply->Err_0 == answer->Err_0
            &&& answer is Ok ==> answer->Ok_0@.len() + 4 > cap && reply->Err_0 is PayloadTooLarge
        }
}

proof fn lemma_answered<F: FnOnce(&[u8]) -> Result<Vec<u8>, SyncError>>(
    server: SyncServer,
    operation: WireOperation,
    body: Seq<u8>,
    serve: F,
    reply: Result<Vec<u8>, SyncError>,
)
    requires
        server.is_byte_answer(operation, body, serve, reply),
    ensures
        answered(server, operation.byte(), body, serve, reply),
{
    let cap = server.config.max_request_bytes;
    let header = seq![0xFEu8, 0xEDu8, 4u8, operation.byte()];
    assert(header =~= crate::sync::wire::frame_header(operation));
    if body.len() >= 4 && body[0] == 0xFE && body[1] == 0xED && body[2] == 4 && body[3]
        == operation.byte() {
        assert(body.take(4) =~= header);
    }
    let read = 4 <= body.len() <= cap && body.take(4) == header;
    if read {
        assert(body.take(4)[0] == body[0] && body.take(4)[1] == body[1]);
        assert(body.take(4)[2] == body[2] && body.take(4)[3] == body[3]);
    }
    if reply is Ok || read {
        let (inner, answer) = choose|inner: &[u8], answer: Result<Vec<u8>, SyncError>|
            {
                &&& inner@ == body.skip(crate::sync::SYNC_WIRE_PREAMBLE_LEN as int)
                &&& #[trigger] serve.ensures((inner,), answer)
                &&& match answer {
                    Err(e) => reply == Err::<Vec<u8>, SyncError>(e),
                    Ok(bytes) => {
                        let size = crate::sync::wire::saturated(
                            bytes@.len() + crate::sync::SYNC_WIRE_PREAMBLE_LEN as nat,
                        );
                        if size <= cap {
                            reply matches Ok(framed) && framed@ == crate::sync::wire::frame_header(
                                operation,
                            ) + bytes@
                        } else {
                            reply == Err::<Vec<u8>, SyncError>(
                                SyncError::PayloadTooLarge { size: size as usize, max: cap },
                            )
                        }
                    },
                }
            };
        assert(serve.ensures((inner,), answer));
        if reply is Ok {
            assert(reply->Ok_0@.len() == reply->Ok_0.len());
        }
    }
}

/// A body is answered as the frame of the operation it was sent to.
pub proof fn law_answered_bodies<F: FnOnce(&[u8]) -> Result<Vec<u8>, SyncError>>(
    server: &SyncServer,
    body: &[u8],
    serve: F,
    handshake: Result<Vec<u8>, SyncError>,
    push: Result<Vec<u8>, SyncError>,
    pull: Result<Vec<u8>, SyncError>,
)
    requires
        call_ensures(SyncServer::handle_handshake_bytes::<F>, (server, body, serve), handshake),
        call_ensures(SyncServer::handle_push_bytes::<F>, (server, body, serve), push),
        call_ensures(SyncServer::handle_pull_bytes::<F>, (server, body, serve), pull),
    ensures
        answered(*server, 1, body@, serve, handshake),
        answered(*server, 2, body@, serve, push),
        answered(*server, 3, body@, serve, pull),
{
    lemma_answered(*server, WireOperation::Handshake, body@, serve, handshake);
    lemma_answered(*server, WireOperation::Push, body@, serve, push);
    lemma_answered(*server, WireOperation::Pull, body@, serve, pull);
}

/// A pull that is not served is answered with its refusal whatever the log says, and one whose
/// log could not be read fails. A change that fits no answer is named by its sequence, with what
/// it needs and the budget it exceeds.
pub proof fn law_unserved_pull(
    server: &SyncServer,
    request: &PullRequest,
    events: Result<Vec<LogCandidate>, String>,
    base: usize,
    refusal: Option<WireReply<PullPage>>,
    r: Result<WireReply<PullPage>, SyncError>,
)
    requires
        server.config.is_valid(),
        events is Ok ==> crate::sync::server::ascending(
            events->Ok_0@,
            request.cursor.sequence,
        ),
        base + 9 <= crate::sync::wire::MIN_CONTROL_FRAME_BYTES,
        call_ensures(SyncServer::refuse_pull, (server, request), refusal),
        call_ensures(SyncServer::handle_pull, (server, request, events, base), r),
    ensures
        refusal is Some ==> r is Ok && r->Ok_0.responder == server.instance_id && !(
        r->Ok_0.result is Served) && !(r->Ok_0.result is ChangeTooLarge),
        refusal is Some && request.protocol_version != SYNC_PROTOCOL_VERSION ==> r->Ok_0.result
            is Rejected && r->Ok_0.result->code == WireErrorCode::ProtocolVersion,
        refusal is Some && request.protocol_version == SYNC_PROTOCOL_VERSION
            && request.target_instance != server.instance_id ==> r->Ok_0.result is PeerChanged
            && r->Ok_0.result->expected == request.target_instance,
        refusal is Some && request.protocol_version == SYNC_PROTOCOL_VERSION
            && request.target_instance == server.instance_id ==> r->Ok_0.result is Rejected
            && r->Ok_0.result->code == WireErrorCode::InvalidRequest,
        refusal is None && events is Err ==> r is Err && r->Err_0 is Transport,
        refusal is None && r is Ok && r->Ok_0.result is ChangeTooLarge ==> r->Ok_0.result->needed
            > r->Ok_0.result->cap && r->Ok_0.result->cap <= request.reply_limit_bytes
            && r->Ok_0.result->cap <= server.config.max_request_bytes,
{
    lemma_budget(*server, request.reply_limit_bytes);
    if refusal is None && events is Ok {
        let n = choose|n: int| #[trigger]
            server.is_pull_answer(
                *request,
                screened(events->Ok_0@, request.collectives),
                base,
                n,
                r,
            );
        assert(server.is_pull_answer(
            *request,
            screened(events->Ok_0@, request.collectives),
            base,
            n,
            r,
        ));
    }
}

} // verus!
