//! What the operations can be asked for: everything but what has no answer.

use vstd::prelude::*;
use std::collections::BTreeMap;

use crate::config::Config;
use crate::model::{
    Collective, DerivedInsight, Experience, ExperienceRelation, ExperienceUpdate, ExperienceV2,
};
use crate::storage::backup::{backup_step, BackupEvent, BackupState};
use crate::storage::decay::{get_decay_config, StoredDecayConfig, StoredDecayConfigV1};
use crate::storage::existing::{store_step, StoreEvent, StoreState};
use crate::storage::experiences::{
    apply_update, delete_experience, get_experience, merge_counters, merge_experience_applications,
    reinforce_experience, reshape_experience, save_experience, update_experience,
};
use crate::storage::open::{file_step, migrate_experiences_v2_to_v3, FileEvent, FileState};
use crate::storage::records::{
    delete_insight, delete_relation, save_collective, save_insight, save_relation,
};
use crate::storage::reencode::{reencode_serde_blobs_to_postcard, BlobRows};
use crate::storage::schema::{
    decode_agent_id_from_activity_key, decode_collective_from_activity_key, EntityTypeTag,
    WatchEventRecord, WatchEventTypeTag,
};
use crate::storage::store::Plan;
use crate::storage::wal::{
    compact_wal_events, increment_wal_and_record, poll_sync_events, poll_watch_events, WalContext,
};
use crate::sync::applier::{ApplyResult, ChangeOutcome, LocalRows, RemoteChangeApplier};
use crate::sync::batch::LogCandidate;
use crate::sync::error::SyncError;
use crate::sync::manager::{
    handshake_with, pull_page, validate_page, AppliedPage, BackgroundLoop, CatchUp, Cycle,
    CycleEvent, LoopEvent, PeerBinding,
};
use crate::sync::payload::{build_payload, Entity};
use crate::sync::pusher::{pack, validate_ack, LocalChangePusher};
use crate::sync::server::{build_change_from_record, SyncServer};
use crate::sync::types::{
    HandshakeRequest, HandshakeResponse, PullPage, PullRequest, PushAck, PushRequest, SyncChange,
    SyncStats, WireReply,
};
use crate::types::{ExperienceId, InsightId, InstanceId, RelationId, Timestamp};

verus! {

/// Every change of a record can be made as long as the log has a number left for it: a change
/// that came from a peer always, and any other unless the stored counter is the largest number
/// there is.
pub proof fn law_changes_are_taken(
    wal: &WalContext,
    plan: &mut Plan,
    bytes: [u8; 16],
    kind: EntityTypeTag,
    what: WatchEventTypeTag,
    id: ExperienceId,
    e: Experience,
    found: Option<Experience>,
    source: &Option<Experience>,
    update: ExperienceUpdate,
    own: InstanceId,
    now: Timestamp,
    c: Collective,
    relation: ExperienceRelation,
    relation_id: RelationId,
    found_relation: &Option<ExperienceRelation>,
    insight: DerivedInsight,
    insight_id: InsightId,
    found_insight: &Option<DerivedInsight>,
)
    requires
        wal.applying || wal.stored is None || wal.stored->Some_0@.len() != 8
            || crate::bytes::be_value(wal.stored->Some_0@) < u64::MAX,
    ensures
        call_requires(increment_wal_and_record, (plan, wal, bytes, bytes, kind, what, now)),
        call_requires(save_experience, (e, wal)),
        call_requires(update_experience, (id, found, update, wal)),
        call_requires(delete_experience, (id, source, wal)),
        call_requires(reinforce_experience, (id, found, own, now, wal)),
        call_requires(save_collective, (c, wal)),
        call_requires(save_relation, (relation, source, wal)),
        call_requires(delete_relation, (relation_id, found_relation, source, now, wal)),
        call_requires(save_insight, (insight, wal)),
        call_requires(delete_insight, (insight_id, found_insight, now, wal)),
{
}

/// Records can be updated, merged, joined, reshaped, migrated and re-encoded whatever they hold.
pub proof fn law_records_are_taken(
    e: Experience,
    update: ExperienceUpdate,
    counts: &BTreeMap<u128, u32>,
    reinforced: Option<Timestamp>,
    id: ExperienceId,
    found: Option<Experience>,
    bytes: &Option<Vec<u8>>,
    v2: ExperienceV2,
    rows: Vec<(ExperienceId, ExperienceV2)>,
    blobs: BlobRows,
)
    ensures
        call_requires(apply_update, (e, update)),
        call_requires(merge_counters, (e, counts, reinforced)),
        call_requires(merge_experience_applications, (id, found, counts, reinforced)),
        call_requires(get_experience, (found, bytes)),
        call_requires(reshape_experience, (v2,)),
        call_requires(migrate_experiences_v2_to_v3, (rows,)),
        call_requires(reencode_serde_blobs_to_postcard, (blobs,)),
{
}

/// A log can be polled from any number and with any limit as long as its rows ascend, and
/// compacted in any case; an activity key can be read wherever it is long enough for the name it
/// announces and that name is text; a decay configuration wherever its half life can be counted.
pub proof fn law_reads_are_taken(
    log: &Vec<(u64, WatchEventRecord)>,
    since: u64,
    limit: usize,
    sequences: &Vec<u64>,
    key: &[u8],
    row: Option<(Result<StoredDecayConfig, String>, Result<StoredDecayConfigV1, String>)>,
)
    ensures
        (forall|i: int, j: int| 0 <= i < j < log@.len() ==> log@[i].0 < log@[j].0)
            ==> call_requires(poll_sync_events, (log, since, limit)) && call_requires(
            poll_watch_events,
            (log, since, limit),
        ),
        call_requires(compact_wal_events, (sequences, since)),
        key@.len() >= 16 ==> call_requires(decode_collective_from_activity_key, (key,)),
        key@.len() >= 18 && key@.len() >= 18 + crate::bytes::be_value(key@.subrange(16, 18))
            && vstd::utf8::valid_utf8(
            key@.subrange(18, (18 + crate::bytes::be_value(key@.subrange(16, 18))) as int),
        ) ==> call_requires(decode_agent_id_from_activity_key, (key,)),
        (row is Some && row->Some_0.0 is Ok ==> row->Some_0.0->Ok_0.half_life_secs
            + row->Some_0.0->Ok_0.half_life_nanos / 1_000_000_000 <= u64::MAX) ==> call_requires(
            get_decay_config,
            (row,),
        ),
{
}

/// Opening a store can go on from any state with any report.
pub proof fn law_reports_are_taken(
    file: FileState,
    file_event: FileEvent,
    store: StoreState,
    store_event: StoreEvent,
    backup: BackupState,
    backup_event: BackupEvent,
    config: &Config,
    windows: bool,
)
    ensures
        call_requires(file_step, (file, file_event, config)),
        call_requires(store_step, (store, store_event, config, windows)),
        call_requires(backup_step, (backup, backup_event, windows)),
{
}

/// Any event can be told, any change of a peer applied, any batch accounted for and packed, and
/// any answer judged.
pub proof fn law_changes_of_peers_are_taken(
    record: &WatchEventRecord,
    found: Result<Option<Entity>, String>,
    context: &str,
    sequence: u64,
    source: InstanceId,
    pusher: &LocalChangePusher,
    applier: &RemoteChangeApplier,
    change: SyncChange,
    rows: Result<LocalRows, String>,
    outcomes: &Vec<ChangeOutcome>,
    now: Timestamp,
    candidates: Vec<LogCandidate>,
    envelope: usize,
    cap: usize,
    batch_size: usize,
    ack: &PushAck,
    sent: &Vec<u64>,
    reply: Result<WireReply<PushAck>, SyncError>,
)
    ensures
        call_requires(build_payload, (record, found, context)),
        call_requires(build_change_from_record, (sequence, record, source, found)),
        call_requires(LocalChangePusher::record_to_change, (pusher, sequence, record, found)),
        call_requires(RemoteChangeApplier::apply_single, (applier, change, rows)),
        call_requires(RemoteChangeApplier::apply_batch, (applier, outcomes, now)),
        call_requires(pack, (candidates, sequence, envelope, cap, batch_size)),
        call_requires(validate_ack, (ack, source, sent)),
        call_requires(LocalChangePusher::conclude, (pusher, sequence, sent, reply)),
{
}

/// Any request can be judged and any push answered. A pull can be answered by a server with
/// usable settings from events in log order behind its cursor, where the empty reply fits the
/// smallest frame at any position.
pub proof fn law_requests_are_taken(
    server: &SyncServer,
    changing: &mut SyncServer,
    handshake: HandshakeRequest,
    push: &PushRequest,
    result: &ApplyResult,
    pull: &PullRequest,
    events: Result<Vec<LogCandidate>, String>,
    base: usize,
)
    ensures
        call_requires(SyncServer::handle_handshake, (server, handshake)),
        call_requires(SyncServer::refuse_push, (server, push)),
        call_requires(SyncServer::refuse_pull, (server, pull)),
        result.applied + result.skipped <= usize::MAX ==> call_requires(
            SyncServer::handle_push,
            (changing, push, result),
        ),
        server.config.batch_size > 0 && server.config.push_interval_ms > 0
            && server.config.pull_interval_ms > 0 && server.config.max_request_bytes >= 1024 && base
            + 9 <= 1024 && (events is Ok ==> (forall|i: int|
            0 <= i < events->Ok_0@.len() ==> pull.cursor.sequence < (
            #[trigger] events->Ok_0@[i]).sequence) && (forall|i: int, j: int|
            0 <= i < j < events->Ok_0@.len() ==> (#[trigger] events->Ok_0@[i]).sequence < (
            #[trigger] events->Ok_0@[j]).sequence)) ==> call_requires(
            SyncServer::handle_pull,
            (server, pull, events, base),
        ),
{
}

/// A session can go on with any answer, page or event.
pub proof fn law_session_events_are_taken(
    response: HandshakeResponse,
    page: &PullPage,
    peer: InstanceId,
    from: u64,
    batch_size: usize,
    reply: Result<WireReply<PullPage>, SyncError>,
    config: &crate::sync::config::SyncConfig,
    binding: &PeerBinding,
    run: &mut CatchUp,
    applied: &AppliedPage,
    stats: &mut SyncStats,
    e: SyncError,
    cycle: &mut Cycle,
    cycle_event: CycleEvent,
    state: &mut BackgroundLoop,
    loop_event: LoopEvent,
)
    ensures
        call_requires(handshake_with, (response,)),
        call_requires(validate_page, (page, peer, from, batch_size)),
        call_requires(pull_page, (reply, config, binding, from)),
        call_requires(CatchUp::page_applied, (run, applied, stats)),
        call_requires(CatchUp::page_failed, (run, e)),
        call_requires(Cycle::run_sync_cycle, (cycle, cycle_event)),
        call_requires(BackgroundLoop::background_loop, (state, loop_event)),
{
}

} // verus!
