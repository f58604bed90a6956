//! Sessions: handshakes, pulls, cycles, catch-ups and the background loop.

use pulsedb::model::SyncCursor;
use pulsedb::sync::applier::{ApplyOutcome, ApplyResult, ChangeOutcome, RemoteChangeApplier};
use pulsedb::sync::config::{RetryConfig, SyncConfig, SyncDirection};
use pulsedb::sync::error::SyncError;
use pulsedb::sync::manager::{
    handshake_request, handshake_with, load_pull_sequence, load_push_sequence, next_sleep_ms,
    pull_page, pull_request, save_pull_position, save_push_cursor, send_budget, AppliedPage,
    BackgroundLoop, CatchUp, CatchUpStep, Cycle, CycleAction, CycleEvent, LoopEvent, PeerBinding,
    SyncManager, TaskState,
};
use pulsedb::sync::pusher::PushOutcome;
use pulsedb::sync::types::{
    HandshakeResponse, PullPage, SyncChange, SyncEntityType, SyncPayload, SyncPosition, SyncStats,
    SyncStatus, WireReply,
};
use pulsedb::sync::{SYNC_CAPABILITY_GCOUNTER_APPLICATIONS, SYNC_PROTOCOL_VERSION};
use pulsedb::types::{CollectiveId, ExperienceId, InstanceId, Timestamp};

fn local() -> InstanceId {
    InstanceId::from_bytes([0x10; 16])
}

fn peer() -> InstanceId {
    InstanceId::from_bytes([0x20; 16])
}

fn stranger() -> InstanceId {
    InstanceId::from_bytes([0x30; 16])
}

fn binding() -> PeerBinding {
    PeerBinding { identity: peer(), receive_budget: 4096 }
}

fn answer() -> HandshakeResponse {
    HandshakeResponse {
        instance_id: peer(),
        protocol_version: SYNC_PROTOCOL_VERSION,
        accepted: true,
        reason: None,
        receive_limit_bytes: 4096,
    }
}

fn manager() -> SyncManager {
    SyncManager::new(local(), SyncConfig::default(), 1 << 20).unwrap()
}

fn changed() -> SyncError {
    SyncError::PeerChanged { expected: peer(), responder: stranger() }
}

#[test]
fn a_session_needs_room_for_its_own_control_traffic() {
    assert!(SyncManager::new(local(), SyncConfig::default(), 1024).is_ok());
    let err = SyncManager::new(local(), SyncConfig::default(), 1000).unwrap_err();
    assert_eq!(
        err.to_string(),
        "Invalid sync configuration: effective control budget 1000 bytes (min of \
         max_request_bytes 67108864 and the transport's receive limit 1000) is below the \
         1024-byte minimum"
    );
    let config = SyncConfig { pull_interval_ms: 0, ..SyncConfig::default() };
    let err = SyncManager::new(local(), config, 4096).unwrap_err();
    assert_eq!(
        err.to_string(),
        "Invalid sync configuration: Invalid field 'pull_interval_ms': must be greater than 0"
    );
}

#[test]
fn a_handshake_names_version_and_capabilities() {
    let request = handshake_request(local());
    assert_eq!(request.instance_id, local());
    assert_eq!(request.protocol_version, 5);
    assert_eq!(
        request.capabilities,
        vec!["push", "pull", SYNC_CAPABILITY_GCOUNTER_APPLICATIONS]
    );
    assert!(request.check_bounds().is_ok());
}

#[test]
fn a_handshake_is_judged_version_first() {
    assert_eq!(handshake_with(answer()).unwrap(), binding());
    let mut old = answer();
    old.protocol_version = 4;
    old.accepted = false;
    old.reason = Some("shadowed".to_string());
    assert!(matches!(
        handshake_with(old),
        Err(SyncError::ProtocolVersion { local: 5, remote: 4 })
    ));
    let mut refused = answer();
    refused.accepted = false;
    assert_eq!(
        handshake_with(refused.clone()).unwrap_err().to_string(),
        "Sync handshake failed: rejected"
    );
    refused.reason = Some("busy".to_string());
    assert_eq!(
        handshake_with(refused).unwrap_err().to_string(),
        "Sync handshake failed: busy"
    );
    let mut small = answer();
    small.receive_limit_bytes = 1023;
    assert_eq!(
        handshake_with(small).unwrap_err().to_string(),
        "Sync handshake failed: peer 20202020-2020-2020-2020-202020202020 advertises a \
         1023-byte inbound limit, below the 1024-byte control minimum"
    );
}

#[test]
fn positions_resume_at_the_start_for_an_unknown_peer() {
    let cursor = SyncCursor { instance_id: peer(), push_sequence: 4, pull_sequence: 9 };
    assert_eq!(load_push_sequence(Ok(None)).unwrap(), 0);
    assert_eq!(load_pull_sequence(Ok(None)).unwrap(), 0);
    assert_eq!(load_push_sequence(Ok(Some(cursor))).unwrap(), 4);
    assert_eq!(load_pull_sequence(Ok(Some(cursor))).unwrap(), 9);
    let err = load_pull_sequence(Err("io".to_string())).unwrap_err();
    assert_eq!(err.to_string(), "Sync transport error: Failed to load cursor: io");
    let moved = save_pull_position(Some(cursor), &SyncPosition::new(peer(), 12));
    assert_eq!(moved, SyncCursor { instance_id: peer(), push_sequence: 4, pull_sequence: 12 });
    let fresh = save_pull_position(None, &SyncPosition::new(peer(), 12));
    assert_eq!(fresh.push_sequence, 0);
    let pushed = save_push_cursor(Some(cursor), peer(), 5);
    assert_eq!(pushed, SyncCursor { instance_id: peer(), push_sequence: 5, pull_sequence: 9 });
}

fn change(sequence: u64, source: InstanceId) -> SyncChange {
    SyncChange {
        sequence,
        source_instance: source,
        collective_id: CollectiveId::from_bytes([1; 16]),
        entity_type: SyncEntityType::Experience,
        payload: SyncPayload::ExperienceArchived {
            id: ExperienceId::from_bytes([9; 16]),
            timestamp: Timestamp::from_millis(0),
        },
        timestamp: Timestamp::from_millis(0),
    }
}

fn page(changes: Vec<SyncChange>, scanned: u64) -> PullPage {
    PullPage { changes, has_more: false, scan_position: SyncPosition::new(peer(), scanned) }
}

fn judged(page: PullPage) -> Result<PullPage, SyncError> {
    let config = SyncConfig { batch_size: 2, ..SyncConfig::default() };
    pull_page(Ok(WireReply::ok(peer(), page)), &config, &binding(), 5)
}

#[test]
fn a_page_must_answer_what_was_asked() {
    assert_eq!(judged(page(vec![change(6, peer()), change(8, peer())], 9)).unwrap().changes.len(), 2);
    assert!(judged(page(vec![], 5)).is_ok());
    let text = |p: PullPage| judged(p).unwrap_err().to_string();
    let mut foreign = page(vec![], 9);
    foreign.scan_position.instance_id = stranger();
    assert_eq!(
        text(foreign),
        "Invalid sync payload: pull page reports a scan position owned by \
         30303030-3030-3030-3030-303030303030 but 20202020-2020-2020-2020-202020202020 was \
         addressed"
    );
    assert_eq!(
        text(page(vec![], 4)),
        "Invalid sync payload: pull page scan position 4 is below the requested 5"
    );
    assert_eq!(
        text(page(vec![change(6, peer()), change(7, peer()), change(8, peer())], 9)),
        "Invalid sync payload: pull page returned 3 changes for a batch of 2"
    );
    assert_eq!(
        text(page(vec![change(6, stranger())], 9)),
        "Invalid sync payload: pulled change 6 claims source \
         30303030-3030-3030-3030-303030303030 but 20202020-2020-2020-2020-202020202020 was \
         addressed"
    );
    assert_eq!(
        text(page(vec![change(8, peer()), change(8, peer())], 9)),
        "Invalid sync payload: pulled change 8 is out of the requested range (8, 9]"
    );
    assert_eq!(
        text(page(vec![change(10, peer())], 9)),
        "Invalid sync payload: pulled change 10 is out of the requested range (5, 9]"
    );
    let config = SyncConfig::default();
    let err = pull_page(
        Ok(WireReply::ok(stranger(), page(vec![], 9))),
        &config,
        &binding(),
        5,
    );
    assert!(err.unwrap_err().is_peer_changed());
    assert!(pull_page(Err(SyncError::Timeout), &config, &binding(), 5).unwrap_err().is_timeout());
}

#[test]
fn a_pull_is_addressed_and_budgeted() {
    let config = SyncConfig {
        collectives: Some(vec![CollectiveId::from_bytes([4; 16])]),
        ..SyncConfig::default()
    };
    let request = pull_request(&config, local(), &binding(), 7, 2048);
    assert_eq!(request.target_instance, peer());
    assert_eq!(request.source_instance, local());
    assert_eq!(request.cursor, SyncPosition::new(peer(), 7));
    assert_eq!(request.batch_size, 250);
    assert_eq!(request.reply_limit_bytes, 2048);
    assert_eq!(request.collectives, Some(vec![CollectiveId::from_bytes([4; 16])]));
    assert_eq!(send_budget(&config, &binding()), 4096);
}

fn result(outcomes: &[(u64, bool)]) -> ApplyResult {
    let list: Vec<ChangeOutcome> = outcomes
        .iter()
        .map(|(sequence, ok)| ChangeOutcome {
            sequence: *sequence,
            last_reinforced: None,
            outcome: if *ok { Some(ApplyOutcome::Applied) } else { None },
        })
        .collect();
    RemoteChangeApplier::new(SyncConfig::default()).apply_batch(&list, Timestamp::from_millis(0))
}

fn applied(outcomes: &[(u64, bool)], scanned: u64, has_more: bool) -> AppliedPage {
    AppliedPage {
        count: outcomes.len(),
        scanned,
        has_more,
        result: if outcomes.is_empty() { None } else { Some(result(outcomes)) },
    }
}

#[test]
fn a_catch_up_runs_to_the_last_page() {
    let mut stats = SyncStats::default();
    let mut run = CatchUp::new(binding(), 0);
    let (at, more) = run.page_applied(&applied(&[(1, true), (2, true)], 4, true), &mut stats);
    assert_eq!(at, SyncPosition::new(peer(), 4));
    assert!(more);
    let (at, more) = run.page_applied(&applied(&[], 9, false), &mut stats);
    assert_eq!(at.sequence, 9);
    assert!(!more);
    assert_eq!(run.total_pulled, 2);
    assert!(run.conclude().is_ok());
}

#[test]
fn a_failure_settled_by_a_retry_does_not_count() {
    let mut stats = SyncStats::default();
    let mut run = CatchUp::new(binding(), 0);
    let (at, more) =
        run.page_applied(&applied(&[(1, true), (2, false), (3, true)], 3, true), &mut stats);
    assert_eq!(at.sequence, 1);
    assert!(more);
    let (at, more) = run.page_applied(&applied(&[(2, true), (3, true)], 3, false), &mut stats);
    assert_eq!(at.sequence, 3);
    assert!(!more);
    assert!(run.conclude().is_ok());
}

#[test]
fn an_unsettled_failure_or_a_stall_is_incomplete() {
    let mut stats = SyncStats::default();
    let mut run = CatchUp::new(binding(), 0);
    let (_, more) = run.page_applied(&applied(&[(1, false), (2, false)], 2, true), &mut stats);
    assert!(!more);
    assert_eq!(
        run.conclude().unwrap_err().to_string(),
        "Initial sync with peer 20202020-2020-2020-2020-202020202020 stopped at position 0 \
         without completing: 2 change(s) failed to apply"
    );
    let mut run = CatchUp::new(binding(), 7);
    let (at, more) = run.page_applied(&applied(&[], 7, true), &mut stats);
    assert_eq!(at.sequence, 7);
    assert!(!more);
    assert!(run
        .conclude()
        .unwrap_err()
        .to_string()
        .contains("did not advance the cursor"));
    let mut run = CatchUp::new(binding(), 7);
    run.page_applied(&applied(&[], 7, false), &mut stats);
    assert!(run.conclude().is_ok());
}

#[test]
fn a_catch_up_follows_one_changed_identity() {
    let mut stats = SyncStats::default();
    let mut run = CatchUp::new(binding(), 0);
    run.page_applied(&applied(&[(5, false)], 5, true), &mut stats);
    assert!(matches!(run.page_failed(changed()), CatchUpStep::Rebind));
    run.rebound(PeerBinding { identity: stranger(), receive_budget: 2048 }, 2);
    assert_eq!(run.position, 2);
    let (at, _) = run.page_applied(&applied(&[], 3, false), &mut stats);
    assert_eq!(at, SyncPosition::new(stranger(), 3));
    assert!(run.conclude().is_ok());
    match run.page_failed(changed()) {
        CatchUpStep::Over(e) => assert_eq!(
            e.to_string(),
            "Sync handshake failed: peer identity changed twice during one initial_sync (bound \
             30303030-3030-3030-3030-303030303030, now 30303030-3030-3030-3030-303030303030); \
             refusing to keep re-establishing"
        ),
        other => panic!("unexpected {other:?}"),
    }
    assert!(matches!(
        CatchUp::new(binding(), 0).page_failed(SyncError::Timeout),
        CatchUpStep::Over(SyncError::Timeout)
    ));
}

#[test]
fn a_cycle_pulls_and_pushes_as_its_direction_asks() {
    let (mut cycle, action) = Cycle::start(binding(), SyncDirection::Bidirectional);
    assert!(matches!(action, CycleAction::Pull));
    assert!(matches!(cycle.run_sync_cycle(CycleEvent::Pulled(Ok(()))), CycleAction::Push));
    let pushed = CycleEvent::Pushed(Ok(PushOutcome::Pushed(3)));
    assert!(matches!(cycle.run_sync_cycle(pushed), CycleAction::Finish(Ok(()))));

    let (mut cycle, _) = Cycle::start(binding(), SyncDirection::PullOnly);
    assert!(matches!(
        cycle.run_sync_cycle(CycleEvent::Pulled(Ok(()))),
        CycleAction::Finish(Ok(()))
    ));
    let (mut cycle, action) = Cycle::start(binding(), SyncDirection::PushOnly);
    assert!(matches!(action, CycleAction::Push));
    let failed = CycleEvent::Pushed(Err(SyncError::Timeout));
    assert!(matches!(
        cycle.run_sync_cycle(failed),
        CycleAction::Finish(Err(SyncError::Timeout))
    ));
}

#[test]
fn a_cycle_follows_one_changed_identity_pull_and_push_together() {
    let (mut cycle, _) = Cycle::start(binding(), SyncDirection::Bidirectional);
    assert!(matches!(
        cycle.run_sync_cycle(CycleEvent::Pulled(Err(changed()))),
        CycleAction::Handshake
    ));
    let other = PeerBinding { identity: stranger(), receive_budget: 2048 };
    assert!(matches!(cycle.run_sync_cycle(CycleEvent::Rebound(Ok(other))), CycleAction::Pull));
    assert_eq!(cycle.binding, other);
    assert!(matches!(cycle.run_sync_cycle(CycleEvent::Pulled(Ok(()))), CycleAction::Push));
    let again = CycleEvent::Pushed(Ok(PushOutcome::PeerChanged(peer())));
    match cycle.run_sync_cycle(again) {
        CycleAction::Finish(Err(e)) => assert_eq!(
            e.to_string(),
            "Sync handshake failed: peer identity changed twice during one sync cycle (bound \
             30303030-3030-3030-3030-303030303030, now 20202020-2020-2020-2020-202020202020); \
             refusing to keep re-establishing"
        ),
        other => panic!("unexpected {other:?}"),
    }
}

fn too_large() -> SyncError {
    SyncError::ChangeTooLarge { sequence: 1, needed: 2, cap: 1 }
}

fn ended(result: Result<(), SyncError>) -> LoopEvent {
    LoopEvent::CycleEnded { binding: binding(), result }
}

#[test]
fn the_background_loop_stops_only_on_what_no_retry_repairs() {
    let mut background = BackgroundLoop::start(binding());
    assert!(matches!(background.status, SyncStatus::Syncing) && !background.stopped);
    for n in 1..=20 {
        background.background_loop(ended(Err(SyncError::Timeout)));
        assert_eq!(background.failures, n);
        assert!(!background.stopped);
        assert!(matches!(
            background.status,
            SyncStatus::Error(ref m) if m == "Sync operation timed out"
        ));
    }
    background.background_loop(ended(Ok(())));
    assert_eq!(background.failures, 0);
    assert!(matches!(background.status, SyncStatus::Syncing) && !background.stopped);

    background.background_loop(ended(Err(too_large())));
    assert!(background.stopped);
    for event in [LoopEvent::Shutdown, ended(Ok(()))] {
        background.background_loop(event);
        assert!(background.stopped);
        assert!(matches!(
            background.status,
            SyncStatus::Error(ref m) if *m == too_large().to_string()
        ));
    }

    let mut worn = BackgroundLoop { failures: u32::MAX, ..BackgroundLoop::start(binding()) };
    worn.background_loop(ended(Err(SyncError::Timeout)));
    assert_eq!(worn.failures, u32::MAX);
}

#[test]
fn a_shutdown_leaves_the_background_loop_idle() {
    let mut background = BackgroundLoop::start(binding());
    background.background_loop(ended(Err(SyncError::Timeout)));
    background.background_loop(LoopEvent::Shutdown);
    assert!(background.stopped);
    assert!(matches!(background.status, SyncStatus::Idle));
    background.background_loop(ended(Err(too_large())));
    assert!(matches!(background.status, SyncStatus::Idle));
}

#[test]
fn the_background_loop_goes_on_with_the_peer_it_found() {
    let mut background = BackgroundLoop::start(binding());
    let found = PeerBinding { identity: stranger(), receive_budget: 2048 };
    background.background_loop(LoopEvent::CycleEnded { binding: found, result: Ok(()) });
    assert_eq!(background.binding, found);
}

#[test]
fn the_background_loop_waits_an_interval_or_a_capped_backoff() {
    let config = SyncConfig {
        push_interval_ms: 700,
        pull_interval_ms: 900,
        retry: RetryConfig { max_backoff_ms: 5_000, ..RetryConfig::default() },
        ..SyncConfig::default()
    };
    assert_eq!(next_sleep_ms(&config, 0, 1), 900);
    assert_eq!(next_sleep_ms(&config, 1, 500), 500);
    assert_eq!(next_sleep_ms(&config, 9, 128_000), 5_000);
}

#[test]
fn a_session_reports_what_it_does() {
    let mut session = manager();
    assert!(matches!(session.status(), SyncStatus::Idle));
    assert_eq!(session.stats().skewed_timestamps, 0);
    assert_eq!(session.peer_instance_id(), None);
    assert!(session.bind(Err(SyncError::Timeout)).unwrap_err().is_timeout());
    assert_eq!(session.bind(Ok(answer())).unwrap(), binding());
    assert_eq!(session.peer_instance_id(), Some(peer()));
    assert_eq!(session.bound_peer(), Some(binding()));

    let (cycle, action) = session.sync_once(binding());
    assert!(matches!(action, CycleAction::Pull));
    assert!(matches!(session.status(), SyncStatus::Syncing));
    assert!(matches!(session.sync_once_ended(&cycle, Ok(())), Ok(SyncStatus::Idle)));
    session.sync_once(binding());
    let err = session.sync_once_ended(&cycle, Err(too_large())).unwrap_err();
    assert!(err.is_change_too_large());
    assert!(matches!(session.status(), SyncStatus::Error(_)));
    assert!(session.sync_once_ended(&cycle, Err(SyncError::Timeout)).is_err());
    assert!(matches!(session.status(), SyncStatus::Idle));

    let run = session.initial_sync(binding(), 3);
    assert_eq!(run.position, 3);
    assert!(matches!(session.status(), SyncStatus::Syncing));
    assert!(session.initial_sync_ended(&run, None).is_ok());
    assert!(matches!(session.status(), SyncStatus::Idle));
    assert!(session.initial_sync_ended(&run, Some(SyncError::Timeout)).unwrap_err().is_timeout());
}

#[test]
fn a_background_task_starts_once_and_leaves_its_last_word() {
    let mut session = manager();
    assert!(session.start(TaskState::Absent).is_ok());
    assert!(session.start(TaskState::Finished).is_ok());
    assert_eq!(
        session.start(TaskState::Running).unwrap_err().to_string(),
        "Sync transport error: SyncManager already started"
    );
    session.started(Ok(answer())).unwrap();
    assert!(matches!(session.status(), SyncStatus::Syncing));
    session.status = SyncStatus::Error("why".to_string());
    assert!(session.stop(TaskState::Finished, Ok(())).is_ok());
    assert!(matches!(session.status(), SyncStatus::Error(ref m) if m == "why"));
    assert!(session.stop(TaskState::Running, Ok(())).is_ok());
    assert!(matches!(session.status(), SyncStatus::Idle));
    assert_eq!(
        session.stop(TaskState::Running, Err("boom".to_string())).unwrap_err().to_string(),
        "Sync transport error: Background task panicked: boom"
    );
    assert!(session.stop(TaskState::Absent, Ok(())).is_ok());
}
