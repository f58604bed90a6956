//! How a session with a peer goes on.

use vstd::prelude::*;

use crate::model::SyncCursor;
use crate::sync::applier::ApplyResult;
use crate::sync::config::{SyncConfig, SyncDirection};
use crate::sync::error::SyncError;
use crate::sync::manager::{
    handshake_request, handshake_with, load_pull_sequence, load_push_sequence, next_sleep_ms,
    pull_page, pull_request, pull_step, save_pull_position, save_push_cursor, send_budget,
    validate_page, AppliedPage, BackgroundLoop, CatchUp, CatchUpStep, Cycle, CycleAction,
    CycleEvent, LoopEvent, PeerBinding, SyncManager, TaskState,
};
use crate::sync::pusher::{LocalChangePusher, PushOutcome};
use crate::sync::server::SyncServer;
use crate::sync::types::{
    HandshakeRequest, HandshakeResponse, PullPage, PullRequest, PushAck, PushRequest, SyncPosition,
    SyncStats, SyncStatus, WireReply,
};
use crate::sync::SYNC_PROTOCOL_VERSION;
use crate::types::InstanceId;

verus! {

// ---------------------------------------------------------------------------
// Handshakes and cursors
// ---------------------------------------------------------------------------

/// A handshake names this instance and its protocol version.
pub proof fn law_opening_handshake(local: InstanceId, request: HandshakeRequest)
    requires
        call_ensures(handshake_request, (local,), request),
    ensures
        request.instance_id == local,
        request.protocol_version == SYNC_PROTOCOL_VERSION,
{
}

/// A session opens exactly with a peer of this protocol version that accepted and takes at
/// least 1024 bytes; it is then bound to the identity that answered and to what that peer
/// takes. A peer of another version is reported as such, whatever else it says.
pub proof fn law_session_opens(
    response: HandshakeResponse,
    r: Result<PeerBinding, SyncError>,
)
    requires
        call_ensures(handshake_with, (response,), r),
    ensures
        r is Ok <==> response.protocol_version == SYNC_PROTOCOL_VERSION && response.accepted
            && response.receive_limit_bytes >= 1024,
        r is Ok ==> r->Ok_0.identity == response.instance_id,
        r is Ok && response.receive_limit_bytes <= usize::MAX ==> r->Ok_0.receive_budget
            == response.receive_limit_bytes,
        response.protocol_version != SYNC_PROTOCOL_VERSION ==> r->Err_0 == (
        SyncError::ProtocolVersion {
            local: SYNC_PROTOCOL_VERSION,
            remote: response.protocol_version,
        }),
        r is Err && response.protocol_version == SYNC_PROTOCOL_VERSION ==> r->Err_0 is Handshake,
{
}

/// Each side of a cursor resumes from its own position: pushing from what was pushed, pulling
/// from what was pulled, and both from the start where no cursor is on record.
pub proof fn law_cursor_resumes(
    loaded: Result<Option<SyncCursor>, String>,
    push: Result<u64, SyncError>,
    pull: Result<u64, SyncError>,
)
    requires
        call_ensures(load_push_sequence, (loaded,), push),
        call_ensures(load_pull_sequence, (loaded,), pull),
    ensures
        loaded is Err ==> push is Err && pull is Err,
        loaded is Ok && loaded->Ok_0 is None ==> push == Ok::<u64, SyncError>(0) && pull == Ok::<
            u64,
            SyncError,
        >(0),
        loaded is Ok && loaded->Ok_0 is Some ==> push == Ok::<u64, SyncError>(
            loaded->Ok_0->Some_0.push_sequence,
        ) && pull == Ok::<u64, SyncError>(loaded->Ok_0->Some_0.pull_sequence),
{
}

/// Storing one side of a cursor leaves the other as it is on record: a pull position is
/// stored under the identity it names and keeps what was pushed, and a push position is
/// stored under the peer and keeps what was pulled.
pub proof fn law_cursor_sides_are_kept_apart(
    found: Option<SyncCursor>,
    position: &SyncPosition,
    pulled: SyncCursor,
    peer: InstanceId,
    sequence: u64,
    pushed: SyncCursor,
)
    requires
        call_ensures(save_pull_position, (found, position), pulled),
        call_ensures(save_push_cursor, (found, peer, sequence), pushed),
    ensures
        pulled.instance_id == position.instance_id,
        pulled.pull_sequence == position.sequence,
        found is Some ==> pulled.push_sequence == found->Some_0.push_sequence,
        found is None ==> pulled.push_sequence == 0,
        pushed.instance_id == peer,
        pushed.push_sequence == sequence,
        found is Some ==> pushed.pull_sequence == found->Some_0.pull_sequence,
        found is None ==> pushed.pull_sequence == 0,
{
}

// ---------------------------------------------------------------------------
// Pulling
// ---------------------------------------------------------------------------

/// A pull goes from this instance to its peer under the current protocol version, continues
/// in the peer's log from the given position, asks for a batch of the collectives to sync, and
/// for an answer that both this instance accepts and its transport reads.
pub proof fn law_pull_request(
    config: &SyncConfig,
    local: InstanceId,
    binding: &PeerBinding,
    from: u64,
    transport_limit: usize,
    request: PullRequest,
    budget: usize,
)
    requires
        call_ensures(pull_request, (config, local, binding, from, transport_limit), request),
        call_ensures(send_budget, (config, binding), budget),
    ensures
        request.protocol_version == SYNC_PROTOCOL_VERSION,
        request.source_instance == local,
        request.target_instance == binding.identity,
        request.cursor.instance_id == binding.identity,
        request.cursor.sequence == from,
        request.batch_size == config.batch_size,
        request.reply_limit_bytes <= config.max_request_bytes,
        request.reply_limit_bytes <= transport_limit,
        request.reply_limit_bytes == config.max_request_bytes || request.reply_limit_bytes
            == transport_limit,
        request.collectives is Some <==> config.collectives is Some,
        request.collectives is Some ==> request.collectives->Some_0@
            == config.collectives->Some_0@,
        budget <= config.max_request_bytes,
        budget <= binding.receive_budget,
        budget == config.max_request_bytes || budget == binding.receive_budget,
{
}

/// Whether a page is one of `peer`'s log from `from` on: its position lies in that log and not
/// before `from`, it holds no more changes than asked for, all of them are the peer's, and they
/// ascend strictly behind `from` and through the position.
pub open spec fn page_of(page: PullPage, peer: InstanceId, from: u64, batch_size: usize) -> bool {
    &&& page.scan_position.instance_id == peer
    &&& page.scan_position.sequence >= from
    &&& page.changes@.len() <= batch_size
    &&& forall|i: int|
        0 <= i < page.changes@.len() ==> {
            &&& (#[trigger] page.changes@[i]).source_instance == peer
            &&& from < page.changes@[i].sequence <= page.scan_position.sequence
        }
    &&& forall|i: int, j: int|
        0 <= i < j < page.changes@.len() ==> (#[trigger] page.changes@[i]).sequence < (
        #[trigger] page.changes@[j]).sequence
}

proof fn lemma_page_of(page: PullPage, peer: InstanceId, from: u64, batch_size: usize)
    ensures
        page_of(page, peer, from, batch_size) <==> crate::sync::manager::page_fits(
            page,
            peer,
            from,
            batch_size,
        ),
{
    if crate::sync::manager::page_fits(page, peer, from, batch_size) {
        assert forall|i: int| 0 <= i < page.changes@.len() implies {
            &&& (#[trigger] page.changes@[i]).source_instance == peer
            &&& from < page.changes@[i].sequence <= page.scan_position.sequence
        } by {
            assert(!crate::sync::manager::misplaced(page, peer, from, i));
            if i > 0 {
                crate::sync::manager::law_accepted_page_is_ordered(
                    page,
                    peer,
                    from,
                    batch_size,
                    0,
                    i,
                );
            }
        }
        assert forall|i: int, j: int| 0 <= i < j < page.changes@.len() implies (
        #[trigger] page.changes@[i]).sequence < (#[trigger] page.changes@[j]).sequence by {
            crate::sync::manager::law_accepted_page_is_ordered(page, peer, from, batch_size, i, j);
        }
    }
    if page_of(page, peer, from, batch_size) {
        assert forall|i: int| 0 <= i < page.changes@.len() implies !(
        #[trigger] crate::sync::manager::misplaced(page, peer, from, i)) by {
            let c = page.changes@[i];
            if i > 0 {
                let b = page.changes@[i - 1];
            }
        }
        assert(forall|i: int|
            #![trigger page.changes@[i]]
            0 <= i < page.changes@.len() ==> !crate::sync::manager::misplaced(
                page,
                peer,
                from,
                i,
            ));
    }
}

/// A page is accepted exactly where it is a page of the peer's log from where it was asked.
pub proof fn law_accepted_page(
    page: &PullPage,
    peer: InstanceId,
    from: u64,
    batch_size: usize,
    r: Result<(), SyncError>,
)
    requires
        call_ensures(validate_page, (page, peer, from, batch_size), r),
    ensures
        r is Ok <==> page_of(*page, peer, from, batch_size),
        r is Err ==> r->Err_0 is InvalidPayload,
{
    lemma_page_of(*page, peer, from, batch_size);
}

/// The answer to a pull comes to its page exactly where the peer itself served it, under this
/// protocol version, and it is a page of the peer's log from where it was asked; a failed
/// exchange comes to its failure, and the answer of another instance to a changed peer.
pub proof fn law_pulled_page(
    reply: Result<WireReply<PullPage>, SyncError>,
    config: &SyncConfig,
    binding: &PeerBinding,
    from: u64,
    r: Result<PullPage, SyncError>,
)
    requires
        call_ensures(pull_page, (reply, config, binding, from), r),
    ensures
        reply is Err ==> r == Err::<PullPage, SyncError>(reply->Err_0),
        reply is Ok && reply->Ok_0.responder != binding.identity ==> r == Err::<
            PullPage,
            SyncError,
        >(
            SyncError::PeerChanged {
                expected: binding.identity,
                responder: reply->Ok_0.responder,
            },
        ),
        r is Ok <==> reply is Ok && reply->Ok_0.responder == binding.identity
            && reply->Ok_0.protocol_version == SYNC_PROTOCOL_VERSION && reply->Ok_0.result is Served
            && page_of(
            reply->Ok_0.result->Served_0,
            binding.identity,
            from,
            config.batch_size,
        ),
        r is Ok ==> r->Ok_0 == reply->Ok_0.result->Served_0,
{
    if reply is Ok && reply->Ok_0.result is Served {
        lemma_page_of(
            reply->Ok_0.result->Served_0,
            binding.identity,
            from,
            config.batch_size,
        );
    }
    assert(crate::sync::manager::is_pulled_page(
        reply,
        binding.identity,
        from,
        config.batch_size,
        r,
    ));
}

/// Whether `next` is where a position moves behind a page: through what was scanned where
/// nothing failed, only to what is safe where anything did, and never back.
pub open spec fn moves_to(from: u64, scanned: u64, result: Option<ApplyResult>, next: u64) -> bool {
    &&& next >= from
    &&& result is None || result->Some_0.failed == 0 ==> next >= scanned && (next == from || next
        == scanned)
    &&& result is Some && result->Some_0.failed > 0 && result->Some_0.safe_through is None
        ==> next == from
    &&& result is Some && result->Some_0.failed > 0 && result->Some_0.safe_through is Some ==> next
        >= result->Some_0.safe_through->Some_0 && (next == from || Some(next)
        == result->Some_0.safe_through)
}

/// Whether `after` counts what `before` counted and the skewed reinforcements of a batch, up
/// to the largest number there is.
pub open spec fn counts_skew(before: SyncStats, result: Option<ApplyResult>, after: SyncStats) -> bool {
    let sum = before.skewed_timestamps + match result {
        Some(r) => r.skewed_timestamps as int,
        None => 0,
    };
    &&& sum <= u64::MAX ==> after.skewed_timestamps == sum
    &&& sum > u64::MAX ==> after.skewed_timestamps == u64::MAX
}

/// The position behind a pull lies in the bound peer's log, where what was scanned and what
/// failed let it move, and the skewed reinforcements of the page are counted.
pub proof fn law_pull_moves(
    binding: &PeerBinding,
    from: u64,
    scanned: u64,
    result: &Option<ApplyResult>,
    stats: &mut SyncStats,
    position: SyncPosition,
)
    requires
        call_ensures(pull_step, (binding, from, scanned, result, stats), position),
    ensures
        position.instance_id == binding.identity,
        moves_to(from, scanned, *result, position.sequence),
        counts_skew(*old(stats), *result, *final(stats)),
{
}

// ---------------------------------------------------------------------------
// Catch-up
// ---------------------------------------------------------------------------

/// A catch-up begins at its stored position with nothing pulled, nothing failed and one change
/// of identity allowed.
pub proof fn law_catch_up_begins(binding: PeerBinding, position: u64, run: CatchUp)
    requires
        call_ensures(CatchUp::new, (binding, position), run),
    ensures
        run.binding == binding,
        run.position == position,
        run.total_pulled == 0,
        run.failed_sequences@ == Set::<u64>::empty(),
        !run.stalled_with_more,
        run.rebinds_left == 1,
{
}

/// A page that was applied moves a catch-up as it moves any pull, adds its changes to those
/// pulled and its failures to those remembered. Another page is asked for exactly where this
/// one moved the position and the peer has more; where it did not move, the catch-up counts as
/// stalled exactly where the peer has more.
pub proof fn law_catch_up_page(
    run: &mut CatchUp,
    page: &AppliedPage,
    stats: &mut SyncStats,
    step: (SyncPosition, bool),
    f: u64,
)
    requires
        call_ensures(CatchUp::page_applied, (run, page, stats), step),
    ensures
        final(run).binding == old(run).binding,
        final(run).rebinds_left == old(run).rebinds_left,
        step.0.instance_id == old(run).binding.identity,
        step.0.sequence == final(run).position,
        moves_to(old(run).position, page.scanned, page.result, final(run).position),
        step.1 <==> final(run).position > old(run).position && page.has_more,
        final(run).position > old(run).position ==> final(run).stalled_with_more
            == old(run).stalled_with_more,
        final(run).position == old(run).position ==> final(run).stalled_with_more
            == page.has_more,
        final(run).failed_sequences@.contains(f) <==> old(run).failed_sequences@.contains(f) || (
        page.result is Some && page.result->Some_0.failed_sequences@.contains(f)),
        old(run).total_pulled + page.count <= usize::MAX ==> final(run).total_pulled == old(
            run,
        ).total_pulled + page.count,
        counts_skew(*old(stats), page.result, *final(stats)),
{
    assert(final(run).spec_view() == crate::sync::manager::after_page(
        old(run).spec_view(),
        *page,
    ));
    assert(final(run).position == final(run).spec_view().position);
    assert(final(run).failed_sequences@ == final(run).spec_view().failed);
    assert(final(run).stalled_with_more == final(run).spec_view().stalled);
}

/// A pull that failed because another identity answered is followed by a new handshake, once;
/// the second time, and after any other failure, the catch-up is over. Nothing else of it
/// changes.
pub proof fn law_catch_up_failure(run: &mut CatchUp, e: SyncError, step: CatchUpStep)
    requires
        call_ensures(CatchUp::page_failed, (run, e), step),
    ensures
        final(run).binding == old(run).binding,
        final(run).position == old(run).position,
        final(run).total_pulled == old(run).total_pulled,
        final(run).failed_sequences@ == old(run).failed_sequences@,
        final(run).stalled_with_more == old(run).stalled_with_more,
        e is PeerChanged && old(run).rebinds_left > 0 ==> step is Rebind && final(run).rebinds_left
            == old(run).rebinds_left - 1,
        e is PeerChanged && old(run).rebinds_left == 0 ==> step is Over && step->Over_0 is Handshake,
        !(e is PeerChanged) ==> step == CatchUpStep::Over(e) && final(run).rebinds_left == old(
            run,
        ).rebinds_left,
{
    assert(final(run).spec_view() == old(run).spec_view());
    assert(final(run).position == final(run).spec_view().position);
    assert(final(run).failed_sequences@ == final(run).spec_view().failed);
    assert(final(run).stalled_with_more == final(run).spec_view().stalled);
}

/// A catch-up that follows its peer to a new identity restarts at that peer's own position,
/// without the failures of the old peer's log; what was pulled stays counted.
pub proof fn law_catch_up_restarts(
    run: &mut CatchUp,
    binding: PeerBinding,
    position: u64,
    done: (),
)
    requires
        call_ensures(CatchUp::rebound, (run, binding, position), done),
    ensures
        final(run).binding == binding,
        final(run).position == position,
        final(run).failed_sequences@ == Set::<u64>::empty(),
        !final(run).stalled_with_more,
        final(run).total_pulled == old(run).total_pulled,
        final(run).rebinds_left == old(run).rebinds_left,
{
    assert(final(run).position == final(run).spec_view().position);
    assert(final(run).failed_sequences@ == final(run).spec_view().failed);
    assert(final(run).stalled_with_more == final(run).spec_view().stalled);
}

/// A catch-up succeeds exactly where no failed change lies beyond its position and it did not
/// stop short of what the peer had; otherwise it says with whom and where it stopped.
pub proof fn law_catch_up_concludes(run: &CatchUp, r: Result<(), SyncError>)
    requires
        call_ensures(CatchUp::conclude, (run,), r),
    ensures
        r is Ok <==> !run.stalled_with_more && forall|f: u64| #[trigger]
            run.failed_sequences@.contains(f) ==> f <= run.position,
        r is Err ==> r->Err_0 is CatchUpIncomplete,
        r is Err ==> r->Err_0->CatchUpIncomplete_peer == run.binding.identity,
        r is Err ==> r->Err_0->CatchUpIncomplete_position == run.position,
{
    assert(r is Ok <==> crate::sync::manager::is_complete(run.spec_view()));
    assert(run.failed_sequences@ == run.spec_view().failed);
}

// ---------------------------------------------------------------------------
// One cycle
// ---------------------------------------------------------------------------

/// A cycle begins with a pull wherever its direction asks for pulls, else with a push, and may
/// follow its peer to one new identity.
pub proof fn law_cycle_begins(
    binding: PeerBinding,
    direction: SyncDirection,
    begun: (Cycle, CycleAction),
)
    requires
        call_ensures(Cycle::start, (binding, direction), begun),
    ensures
        begun.0.binding == binding,
        begun.0.direction == direction,
        begun.0.rebinds_left == 1,
        direction is PushOnly ==> begun.1 is Push,
        !(direction is PushOnly) ==> begun.1 is Pull,
{
}

/// A cycle goes on step by step. Behind a pull it pushes, unless it only pulls; behind a push
/// it is done; behind a new handshake it begins again with the peer that answered. A failure
/// ends it. An answer by another identity leads to a new handshake as long as one is left, and
/// ends the cycle otherwise.
pub proof fn law_cycle_step(cycle: &mut Cycle, event: CycleEvent, action: CycleAction)
    requires
        call_ensures(Cycle::run_sync_cycle, (cycle, event), action),
    ensures
        final(cycle).direction == old(cycle).direction,
        event matches CycleEvent::Pulled(Ok(_)) ==> {
            &&& final(cycle).binding == old(cycle).binding
            &&& final(cycle).rebinds_left == old(cycle).rebinds_left
            &&& old(cycle).direction is PullOnly ==> action is Finish && action->Finish_0 is Ok
            &&& !(old(cycle).direction is PullOnly) ==> action is Push
        },
        event matches CycleEvent::Pushed(Ok(PushOutcome::Pushed(_))) ==> {
            &&& final(cycle).binding == old(cycle).binding
            &&& final(cycle).rebinds_left == old(cycle).rebinds_left
            &&& action is Finish && action->Finish_0 is Ok
        },
        event matches CycleEvent::Rebound(Ok(binding)) ==> {
            &&& final(cycle).binding == binding
            &&& final(cycle).rebinds_left == old(cycle).rebinds_left
            &&& old(cycle).direction is PushOnly ==> action is Push
            &&& !(old(cycle).direction is PushOnly) ==> action is Pull
        },
        event matches CycleEvent::Rebound(Err(e)) ==> action == CycleAction::Finish(
            Err::<(), SyncError>(e),
        ) && final(cycle).binding == old(cycle).binding,
        event matches CycleEvent::Pushed(Err(e)) ==> action == CycleAction::Finish(
            Err::<(), SyncError>(e),
        ) && final(cycle).binding == old(cycle).binding,
        event matches CycleEvent::Pulled(Err(e)) ==> (!(e is PeerChanged) ==> action
            == CycleAction::Finish(Err::<(), SyncError>(e))) && final(cycle).binding == old(
            cycle,
        ).binding,
        (event matches CycleEvent::Pulled(Err(e)) && e is PeerChanged) || (
        event matches CycleEvent::Pushed(Ok(PushOutcome::PeerChanged(_)))) ==> {
            &&& final(cycle).binding == old(cycle).binding
            &&& old(cycle).rebinds_left > 0 ==> action is Handshake && final(cycle).rebinds_left
                == old(cycle).rebinds_left - 1
            &&& old(cycle).rebinds_left == 0 ==> action is Finish && action->Finish_0 is Err
                && action->Finish_0->Err_0 is Handshake
        },
{
}

// ---------------------------------------------------------------------------
// The background loop
// ---------------------------------------------------------------------------

/// The background loop begins with its peer, syncing, and with no failure counted.
pub proof fn law_loop_begins(binding: PeerBinding, begun: BackgroundLoop)
    requires
        call_ensures(BackgroundLoop::start, (binding,), begun),
    ensures
        begun.binding == binding,
        begun.failures == 0,
        begun.status is Syncing,
        !begun.stopped,
{
}

/// While it runs, the background loop takes over the peer that each cycle ended with. A cycle
/// that succeeded leaves it syncing with no failure counted. One that failed is reported and
/// counted, and the loop goes on; only a change or a request that is too large stops it. A
/// shutdown leaves it idle and stopped, and once stopped it stays as it is.
pub proof fn law_loop_step(state: &mut BackgroundLoop, event: LoopEvent, done: ())
    requires
        call_ensures(BackgroundLoop::background_loop, (state, event), done),
    ensures
        old(state).stopped ==> *final(state) == *old(state),
        !old(state).stopped && event is Shutdown ==> final(state).stopped && final(state).status
            is Idle && final(state).binding == old(state).binding,
        !old(state).stopped ==> (event matches LoopEvent::CycleEnded { binding, result } ==> {
            &&& final(state).binding == binding
            &&& result is Ok ==> {
                &&& !final(state).stopped
                &&& final(state).failures == 0
                &&& final(state).status is Syncing
            }
            &&& result is Err ==> {
                let e = result->Err_0;
                let terminal = e is ChangeTooLarge || e is RequestTooLarge;
                &&& final(state).status is Error
                &&& final(state).status->Error_0@ == e.message()
                &&& final(state).stopped <==> terminal
                &&& !terminal && old(state).failures < u32::MAX ==> final(state).failures == old(
                    state,
                ).failures + 1
            }
        }),
{
}

/// Without failures the loop waits for the longer of both intervals; after failures for the
/// grown backoff, but never longer than the longest one allowed.
pub proof fn law_loop_waits(config: &SyncConfig, failures: u32, grown_ms: u64, ms: u64)
    requires
        call_ensures(next_sleep_ms, (config, failures, grown_ms), ms),
    ensures
        failures == 0 ==> ms >= config.push_interval_ms && ms >= config.pull_interval_ms && (ms
            == config.push_interval_ms || ms == config.pull_interval_ms),
        failures > 0 ==> ms <= grown_ms && ms <= config.retry.max_backoff_ms && (ms == grown_ms
            || ms == config.retry.max_backoff_ms),
{
}

// ---------------------------------------------------------------------------
// The session
// ---------------------------------------------------------------------------

/// A session is made of usable settings over a transport that reads at least 1024 bytes. It
/// begins unbound, idle and with nothing counted.
pub proof fn law_session_is_made(
    local: InstanceId,
    config: SyncConfig,
    transport_limit: usize,
    r: Result<SyncManager, SyncError>,
)
    requires
        call_ensures(SyncManager::new, (local, config, transport_limit), r),
    ensures
        r is Ok <==> config.batch_size > 0 && config.push_interval_ms > 0
            && config.pull_interval_ms > 0 && config.max_request_bytes >= 1024 && transport_limit
            >= 1024,
        r is Ok ==> {
            &&& r->Ok_0.config == config
            &&& r->Ok_0.local_instance_id == local
            &&& r->Ok_0.transport_limit == transport_limit
            &&& r->Ok_0.peer is None
            &&& r->Ok_0.status is Idle
            &&& r->Ok_0.stats.skewed_timestamps == 0
        },
{
}

/// Whether a session differs from what it was in its peer and its status at most.
pub open spec fn session_kept(before: SyncManager, after: SyncManager) -> bool {
    &&& after.config == before.config
    &&& after.local_instance_id == before.local_instance_id
    &&& after.transport_limit == before.transport_limit
    &&& after.stats == before.stats
}

/// A session is bound to the peer of every handshake that opens one, and keeps the peer it has
/// where a handshake fails; only starting the background task makes it report syncing.
pub proof fn law_session_is_bound(
    session: &mut SyncManager,
    response: Result<HandshakeResponse, SyncError>,
    r: Result<PeerBinding, SyncError>,
)
    requires
        call_ensures(SyncManager::bind, (session, response), r),
    ensures
        session_kept(*old(session), *final(session)),
        final(session).status == old(session).status,
        response is Err ==> r == Err::<PeerBinding, SyncError>(response->Err_0),
        response is Ok ==> (r is Ok <==> response->Ok_0.protocol_version == SYNC_PROTOCOL_VERSION
            && response->Ok_0.accepted && response->Ok_0.receive_limit_bytes >= 1024),
        r is Ok ==> r->Ok_0.identity == response->Ok_0.instance_id && final(session).peer == Some(
            r->Ok_0,
        ),
        r is Err ==> final(session).peer == old(session).peer,
{
}

/// The handshake before a background task binds the session as any other; where it opens a
/// session the session reports syncing, and otherwise nothing changes.
pub proof fn law_background_task_starts(
    session: &mut SyncManager,
    response: Result<HandshakeResponse, SyncError>,
    r: Result<PeerBinding, SyncError>,
)
    requires
        call_ensures(SyncManager::started, (session, response), r),
    ensures
        response is Err ==> r == Err::<PeerBinding, SyncError>(response->Err_0),
        response is Ok ==> (r is Ok <==> response->Ok_0.protocol_version == SYNC_PROTOCOL_VERSION
            && response->Ok_0.accepted && response->Ok_0.receive_limit_bytes >= 1024),
        r is Ok ==> {
            &&& r->Ok_0.identity == response->Ok_0.instance_id
            &&& session_kept(*old(session), *final(session))
            &&& final(session).peer == Some(r->Ok_0)
            &&& final(session).status is Syncing
        },
        r is Err ==> *final(session) == *old(session),
{
}

/// A background task is started unless one runs already. Stopping one that runs leaves the
/// session idle; stopping one that ended by itself leaves its status in place; and a task that
/// panicked is reported.
pub proof fn law_background_task_stops(
    session: &mut SyncManager,
    task: TaskState,
    joined: Result<(), String>,
    r: Result<(), SyncError>,
    other: &SyncManager,
    may: Result<(), SyncError>,
)
    requires
        call_ensures(SyncManager::stop, (session, task, joined), r),
        call_ensures(SyncManager::start, (other, task), may),
    ensures
        may is Ok <==> !(task is Running),
        r is Ok <==> task is Absent || joined is Ok,
        session_kept(*old(session), *final(session)),
        final(session).peer == old(session).peer,
        task is Running && joined is Ok ==> final(session).status is Idle,
        !(task is Running && joined is Ok) ==> final(session).status == old(session).status,
{
}

/// A single cycle goes the way the settings ask for, with the given peer, while the session
/// reports syncing.
pub proof fn law_single_cycle_begins(
    session: &mut SyncManager,
    binding: PeerBinding,
    begun: (Cycle, CycleAction),
)
    requires
        call_ensures(SyncManager::sync_once, (session, binding), begun),
    ensures
        session_kept(*old(session), *final(session)),
        final(session).peer == old(session).peer,
        final(session).status is Syncing,
        begun.0.binding == binding,
        begun.0.direction == old(session).config.direction,
        begun.0.rebinds_left == 1,
        old(session).config.direction is PushOnly ==> begun.1 is Push,
        !(old(session).config.direction is PushOnly) ==> begun.1 is Pull,
{
}

/// A single cycle leaves the session bound to the peer it ended with, and idle; only a change
/// or a request that is too large stays as the status. The caller learns how it ended.
pub proof fn law_single_cycle_ends(
    session: &mut SyncManager,
    cycle: &Cycle,
    result: Result<(), SyncError>,
    r: Result<SyncStatus, SyncError>,
)
    requires
        call_ensures(SyncManager::sync_once_ended, (session, cycle, result), r),
    ensures
        session_kept(*old(session), *final(session)),
        final(session).peer == Some(cycle.binding),
        result is Ok ==> r is Ok && r->Ok_0 is Idle && final(session).status is Idle,
        result is Err ==> {
            let e = result->Err_0;
            let terminal = e is ChangeTooLarge || e is RequestTooLarge;
            &&& r == Err::<SyncStatus, SyncError>(e)
            &&& terminal ==> final(session).status is Error && final(session).status->Error_0@
                == e.message()
            &&& !terminal ==> final(session).status is Idle
        },
{
}

/// A session catches up from the stored position while it reports syncing, and is idle when
/// the catch-up has ended; that fails with the failure that ended it, and otherwise exactly
/// where the catch-up is not complete.
pub proof fn law_session_catches_up(
    session: &mut SyncManager,
    binding: PeerBinding,
    position: u64,
    begun: CatchUp,
    later: &mut SyncManager,
    run: &CatchUp,
    failed: Option<SyncError>,
    r: Result<(), SyncError>,
)
    requires
        call_ensures(SyncManager::initial_sync, (session, binding, position), begun),
        call_ensures(SyncManager::initial_sync_ended, (later, run, failed), r),
    ensures
        session_kept(*old(session), *final(session)),
        final(session).peer == old(session).peer,
        final(session).status is Syncing,
        begun.binding == binding,
        begun.position == position,
        begun.total_pulled == 0,
        begun.failed_sequences@ == Set::<u64>::empty(),
        !begun.stalled_with_more,
        session_kept(*old(later), *final(later)),
        final(later).peer == old(later).peer,
        final(later).status is Idle,
        failed is Some ==> r == Err::<(), SyncError>(failed->Some_0),
        failed is None ==> (r is Ok <==> !run.stalled_with_more && forall|f: u64| #[trigger]
            run.failed_sequences@.contains(f) ==> f <= run.position),
{
    assert(begun.position == begun.spec_view().position);
    assert(begun.failed_sequences@ == begun.spec_view().failed);
    assert(begun.stalled_with_more == begun.spec_view().stalled);
    if failed is None {
        assert(r is Ok <==> crate::sync::manager::is_complete(run.spec_view()));
        assert(run.failed_sequences@ == run.spec_view().failed);
    }
}

// ---------------------------------------------------------------------------
// Pushes, on both sides
// ---------------------------------------------------------------------------

/// A pusher moves exactly to a position that was stored, and reports what was pushed; where
/// storing failed it stays and reports that.
pub proof fn law_stored_position_counts(
    pusher: &mut LocalChangePusher,
    next: u64,
    count: usize,
    stored: Result<(), String>,
    r: Result<PushOutcome, SyncError>,
)
    requires
        call_ensures(LocalChangePusher::saved, (pusher, next, count, stored), r),
    ensures
        final(pusher).config == old(pusher).config,
        final(pusher).local_instance_id == old(pusher).local_instance_id,
        final(pusher).peer_instance_id == old(pusher).peer_instance_id,
        final(pusher).peer_receive_limit_bytes == old(pusher).peer_receive_limit_bytes,
        stored is Ok ==> final(pusher).position == next && r == Ok::<PushOutcome, SyncError>(
            PushOutcome::Pushed(count),
        ),
        stored is Err ==> final(pusher).position == old(pusher).position && r is Err,
{
}

/// A push that is refused changes no counter, whatever became of its changes. One that is
/// acted on is acknowledged for the sender's log, with every change that ended: as many
/// rejected as failed, the rest accepted, safe through what the outcomes make safe; and its
/// skewed reinforcements are counted.
pub proof fn law_answered_push(
    server: &mut SyncServer,
    request: &PushRequest,
    result: &ApplyResult,
    r: Result<WireReply<PushAck>, SyncError>,
    before: &SyncServer,
    refusal: Option<Result<WireReply<PushAck>, SyncError>>,
)
    requires
        result.applied + result.skipped <= usize::MAX,
        result.failed <= result.skipped,
        *before == *old(server),
        call_ensures(SyncServer::refuse_push, (before, request), refusal),
        call_ensures(SyncServer::handle_push, (server, request, result), r),
    ensures
        final(server).instance_id == old(server).instance_id,
        final(server).config == old(server).config,
        refusal is Some ==> final(server).stats == old(server).stats && (r is Ok ==> !(
        r->Ok_0.result is Served)),
        refusal is None ==> {
            &&& r is Ok
            &&& r->Ok_0.responder == old(server).instance_id
            &&& r->Ok_0.protocol_version == SYNC_PROTOCOL_VERSION
            &&& r->Ok_0.result is Served
            &&& r->Ok_0.result->Served_0.wal_owner == request.source_instance
            &&& r->Ok_0.result->Served_0.total == result.applied + result.skipped
            &&& r->Ok_0.result->Served_0.rejected == result.failed
            &&& r->Ok_0.result->Served_0.accepted == result.applied + result.skipped
                - result.failed
            &&& r->Ok_0.result->Served_0.safe_through == result.safe_through
            &&& counts_skew(old(server).stats, Some(*result), final(server).stats)
        },
{
}

/// A session reports the status it has, and the peer it is bound to.
pub proof fn law_session_reports(
    session: &SyncManager,
    status: SyncStatus,
    peer: Option<InstanceId>,
    bound: Option<PeerBinding>,
)
    requires
        call_ensures(SyncManager::status, (session,), status),
        call_ensures(SyncManager::peer_instance_id, (session,), peer),
        call_ensures(SyncManager::bound_peer, (session,), bound),
    ensures
        status is Idle <==> session.status is Idle,
        status is Syncing <==> session.status is Syncing,
        status is Error <==> session.status is Error,
        status is Error ==> status->Error_0@ == session.status->Error_0@,
        peer is Some <==> session.peer is Some,
        peer is Some ==> peer->Some_0 == session.peer->Some_0.identity,
        bound == session.peer,
{
}

/// A pusher continues behind the position it is set to, and sends no more than both this
/// instance may build and the peer accepts.
pub proof fn law_pusher_continues(
    pusher: &mut LocalChangePusher,
    sequence: u64,
    done: (),
    other: &LocalChangePusher,
    cap: usize,
)
    requires
        call_ensures(LocalChangePusher::reset_to, (pusher, sequence), done),
        call_ensures(LocalChangePusher::push_cap_bytes, (other,), cap),
    ensures
        final(pusher).position == sequence,
        final(pusher).config == old(pusher).config,
        final(pusher).local_instance_id == old(pusher).local_instance_id,
        final(pusher).peer_instance_id == old(pusher).peer_instance_id,
        final(pusher).peer_receive_limit_bytes == old(pusher).peer_receive_limit_bytes,
        cap <= other.config.max_request_bytes,
        cap <= other.peer_receive_limit_bytes,
        cap == other.config.max_request_bytes || cap == other.peer_receive_limit_bytes,
{
}

/// The skewed reinforcements of a batch are added to those counted.
pub proof fn law_skew_is_counted(result: &ApplyResult, stats: &mut SyncStats, done: ())
    requires
        call_ensures(ApplyResult::record_into, (result, stats), done),
    ensures
        counts_skew(*old(stats), Some(*result), *final(stats)),
{
}

} // verus!
