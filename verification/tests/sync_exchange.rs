//! Frames, pushes and pulls between two peers.

use std::collections::BTreeMap;

use pulsedb::bytes::varint_len;
use pulsedb::model::{Collective, Experience, ExperienceType};
use pulsedb::storage::schema::{
    EntityTypeTag, ExperienceTypeTag, WatchEventRecord, WatchEventTypeTag,
};
use pulsedb::storage::wal::poll_sync_events;
use pulsedb::sync::applier::{ApplyOutcome, ApplyResult, ChangeOutcome, RemoteChangeApplier};
use pulsedb::sync::batch::LogCandidate;
use pulsedb::sync::config::SyncConfig;
use pulsedb::sync::error::SyncError;
use pulsedb::sync::manager::{pull_page, pull_request, PeerBinding};
use pulsedb::sync::payload::{entity_needed, Entity, EntityRef};
use pulsedb::sync::pusher::{
    pack, validate_ack, LocalChangePusher, PackedPush, PushOutcome, PushStep,
};
use pulsedb::sync::server::{
    advance_scan_within_cap, build_change_from_record, validate_batch_metadata, SyncServer,
    PULL_PAGE_EVENT_LIMIT,
};
use pulsedb::sync::types::{
    bound_wire_detail, HandshakeRequest, PullPage, PullRequest, PushAck, PushRequest, SyncChange,
    SyncEntityType, SyncPayload, SyncPosition, WireErrorCode, WireReply, WireResult,
    MAX_HANDSHAKE_CAPABILITIES,
};
use pulsedb::sync::wire::{
    check_consumed, frame_bounded, unframe_bounded, FrameSizer, WireOperation,
    MIN_CONTROL_FRAME_BYTES,
};
use pulsedb::sync::{
    read_wire_preamble, write_wire_preamble, SYNC_PROTOCOL_VERSION, SYNC_WIRE_PREAMBLE_LEN,
};
use pulsedb::types::{CollectiveId, ExperienceId, InstanceId, Timestamp};

fn local() -> InstanceId {
    InstanceId::from_bytes([0x10; 16])
}

fn peer() -> InstanceId {
    InstanceId::from_bytes([0x20; 16])
}

fn change(sequence: u64, source: InstanceId) -> SyncChange {
    SyncChange {
        sequence,
        source_instance: source,
        collective_id: CollectiveId::from_bytes([1; 16]),
        entity_type: SyncEntityType::Experience,
        payload: SyncPayload::ExperienceArchived {
            id: ExperienceId::from_bytes([9; 16]),
            timestamp: Timestamp::from_millis(0),
        },
        timestamp: Timestamp::from_millis(0),
    }
}

fn sendable(sequence: u64, item_len: usize) -> LogCandidate {
    LogCandidate { sequence, change: Ok(Some(change(sequence, peer()))), item_len }
}

fn filtered(sequence: u64) -> LogCandidate {
    LogCandidate { sequence, change: Ok(None), item_len: 0 }
}

fn sequences(changes: &[SyncChange]) -> Vec<u64> {
    changes.iter().map(|c| c.sequence).collect()
}

fn server() -> SyncServer {
    SyncServer::new(peer(), SyncConfig::default()).unwrap()
}

#[test]
fn frames_carry_magic_format_and_operation() {
    let framed = write_wire_preamble(WireOperation::Push, &[1, 2, 3]);
    assert_eq!(framed, vec![0xFE, 0xED, 4, 2, 1, 2, 3]);
    assert_eq!(read_wire_preamble(WireOperation::Push, &framed).unwrap(), &[1, 2, 3]);
    assert!(read_wire_preamble(WireOperation::Pull, &framed)
        .unwrap_err()
        .is_wire_operation_mismatch());
    assert!(read_wire_preamble(WireOperation::Push, &framed[..3])
        .unwrap_err()
        .is_wire_format_mismatch());
    let mut other = framed.clone();
    other[2] = 3;
    assert!(matches!(
        read_wire_preamble(WireOperation::Push, &other),
        Err(SyncError::WireFormatMismatch { expected: 4, got: Some(3) })
    ));
    other[0] = 0;
    assert!(matches!(
        read_wire_preamble(WireOperation::Push, &other),
        Err(SyncError::WireFormatMismatch { expected: 4, got: None })
    ));
}

#[test]
fn the_byte_cap_comes_before_the_header() {
    assert!(matches!(
        unframe_bounded(WireOperation::Push, &[0; 9], 8),
        Err(SyncError::PayloadTooLarge { size: 9, max: 8 })
    ));
    assert!(frame_bounded(WireOperation::Push, &[0; 4], 8).is_ok());
    assert!(matches!(
        frame_bounded(WireOperation::Push, &[0; 5], 8),
        Err(SyncError::PayloadTooLarge { size: 9, max: 8 })
    ));
}

#[test]
fn a_sizer_tells_the_exact_length_of_a_frame() {
    let mut sizer = FrameSizer::new(40);
    for n in 0..127usize {
        assert_eq!(sizer.len(), 40 + n * 3);
        sizer.push(3);
    }
    assert_eq!(sizer.len_with(3), 40 + 128 * 3 + 1);
    assert_eq!(sizer.envelope(), 40);
    let bytes = postcard::to_stdvec(&vec![7u8; 127]).unwrap();
    let mut list = FrameSizer::new(1);
    for _ in 0..127 {
        list.push(1);
    }
    assert_eq!(list.len(), bytes.len());
    list.push(1);
    assert_eq!(list.len(), postcard::to_stdvec(&vec![7u8; 128]).unwrap().len());
    for n in [0u64, 127, 128, 16_383, 16_384, u64::MAX] {
        assert_eq!(varint_len(n), postcard::to_stdvec(&n).unwrap().len());
    }
}

#[test]
fn recovery_v5_server_new_refuses_an_unusable_configuration() {
    let err = SyncServer::new(
        peer(),
        SyncConfig {
            batch_size: 0,
            ..SyncConfig::default()
        },
    )
    .err()
    .expect("a zero batch_size is refused at construction");
    assert!(err.is_config(), "got {err:?}");
    assert!(err.to_string().contains("batch_size"), "{err:?}");

    let err = SyncServer::new(
        peer(),
        SyncConfig {
            max_request_bytes: MIN_CONTROL_FRAME_BYTES - 1,
            ..SyncConfig::default()
        },
    )
    .err()
    .expect("a cap under the control minimum is refused at construction");
    assert!(err.is_config(), "got {err:?}");

    let server = SyncServer::new(peer(), SyncConfig::default()).expect("defaults are usable");
    assert_eq!(
        server.receive_limit_bytes(),
        SyncConfig::default().max_request_bytes
    );
    assert_eq!(server.instance_id(), peer());
    assert_eq!(server.stats().skewed_timestamps, 0);
}

#[test]
fn recovery_v5_data_endpoints_refuse_an_unframed_v4_body() {
    let server = server();
    let legacy_pull = postcard::to_allocvec(&(4u32, [0x10u8; 16], [0x20u8; 16], 0u64)).unwrap();
    let err = server
        .handle_pull_bytes(&legacy_pull, |_| unreachable!())
        .unwrap_err();
    assert!(err.is_wire_format_mismatch(), "got {err:?}");
    assert!(err.is_protocol_incompatible(), "got {err:?}");

    let legacy_push = postcard::to_allocvec(&Vec::<u8>::new()).unwrap();
    let err = server
        .handle_push_bytes(&legacy_push, |_| unreachable!())
        .unwrap_err();
    assert!(err.is_wire_format_mismatch(), "got {err:?}");
}

#[test]
fn recovery_v5_endpoints_refuse_a_frame_for_another_operation() {
    let push_frame = frame_bounded(WireOperation::Push, &[5, 0], usize::MAX).unwrap();
    let err = server()
        .handle_pull_bytes(&push_frame, |_| unreachable!())
        .unwrap_err();
    assert!(err.is_wire_operation_mismatch(), "got {err:?}");
}

#[test]
fn recovery_v5_endpoints_refuse_trailing_bytes() {
    let message = postcard::to_stdvec(&([1u8; 16], SYNC_PROTOCOL_VERSION)).unwrap();
    let mut frame = frame_bounded(WireOperation::Handshake, &message, usize::MAX).unwrap();
    frame.extend_from_slice(&[0u8; 8]);
    let err = server()
        .handle_handshake_bytes(&frame, |inner| {
            let (_, rest) = postcard::take_from_bytes::<([u8; 16], u32)>(inner).unwrap();
            check_consumed(rest.len()).map(|_| Vec::new())
        })
        .unwrap_err();
    assert!(
        matches!(err, SyncError::Serialization(ref m) if m.contains("trailing")),
        "got {err:?}"
    );
}

#[test]
fn an_answer_goes_back_under_the_endpoints_own_frame() {
    let frame = frame_bounded(WireOperation::Push, &[7], usize::MAX).unwrap();
    let reply = server().handle_push_bytes(&frame, |inner| {
        assert_eq!(inner, &[7]);
        Ok(vec![8, 9])
    });
    assert_eq!(reply.unwrap(), vec![0xFE, 0xED, 4, 2, 8, 9]);
    let small = SyncServer::new(
        peer(),
        SyncConfig { max_request_bytes: MIN_CONTROL_FRAME_BYTES, ..SyncConfig::default() },
    )
    .unwrap();
    let err = small.handle_push_bytes(&frame, |_| Ok(vec![0; MIN_CONTROL_FRAME_BYTES]));
    assert!(err.unwrap_err().is_payload_too_large());
}

#[test]
fn recovery_v5_handshake_advertises_the_server_inbound_limit() {
    let cap = 2 * 1024 * 1024;
    let server = SyncServer::new(
        peer(),
        SyncConfig {
            max_request_bytes: cap,
            ..SyncConfig::default()
        },
    )
    .unwrap();

    let response = server
        .handle_handshake(HandshakeRequest {
            instance_id: local(),
            protocol_version: SYNC_PROTOCOL_VERSION,
            capabilities: vec![],
        })
        .unwrap();
    assert!(response.accepted);
    assert_eq!(response.receive_limit_bytes, cap as u64);
}

#[test]
fn recovery_v5_handshake_bounds_are_enforced() {
    let err = server()
        .handle_handshake(HandshakeRequest {
            instance_id: local(),
            protocol_version: SYNC_PROTOCOL_VERSION,
            capabilities: (0..MAX_HANDSHAKE_CAPABILITIES + 1)
                .map(|i| format!("cap-{i}"))
                .collect(),
        })
        .unwrap_err();
    assert!(matches!(err, SyncError::InvalidPayload(_)), "got {err:?}");
    let long = HandshakeRequest {
        instance_id: local(),
        protocol_version: SYNC_PROTOCOL_VERSION,
        capabilities: vec!["x".repeat(33)],
    };
    assert!(long.check_bounds().is_err());
}

#[test]
fn another_protocol_version_is_declined_with_a_reason() {
    let response = server()
        .handle_handshake(HandshakeRequest {
            instance_id: local(),
            protocol_version: 4,
            capabilities: vec![],
        })
        .unwrap();
    assert!(!response.accepted);
    assert_eq!(response.protocol_version, SYNC_PROTOCOL_VERSION);
    assert_eq!(
        response.reason.unwrap(),
        "Protocol version mismatch: server v5, client v4"
    );
}

fn push(changes: Vec<SyncChange>) -> PushRequest {
    PushRequest {
        protocol_version: SYNC_PROTOCOL_VERSION,
        source_instance: local(),
        target_instance: peer(),
        reply_limit_bytes: 1 << 20,
        changes,
    }
}

fn nothing_applied() -> ApplyResult {
    RemoteChangeApplier::new(SyncConfig::default()).apply_batch(&vec![], Timestamp::from_millis(0))
}

fn detail(reply: WireReply<PushAck>) -> (WireErrorCode, String) {
    match reply.result {
        WireResult::Rejected { code, detail } => (code, detail),
        other => panic!("expected a refusal, got {other:?}"),
    }
}

#[test]
fn a_push_is_refused_from_its_metadata() {
    let mut server = server();
    let result = ApplyResult { skewed_timestamps: 3, ..nothing_applied() };

    let mut request = push(vec![]);
    request.protocol_version = 4;
    let reply = server.handle_push(&request, &result).unwrap();
    assert_eq!(
        detail(reply),
        (
            WireErrorCode::ProtocolVersion,
            "server speaks protocol v5, request declared v4".to_string()
        )
    );

    let mut request = push(vec![change(1, local())]);
    request.target_instance = local();
    let reply = server.handle_push(&request, &result).unwrap();
    assert!(matches!(reply.result, WireResult::PeerChanged { expected } if expected == local()));
    assert!(reply.into_result(local()).unwrap_err().is_peer_changed());

    let foreign = push(vec![change(1, local()), change(2, peer())]);
    let (code, text) = detail(server.handle_push(&foreign, &result).unwrap());
    assert_eq!(code, WireErrorCode::InvalidRequest);
    assert_eq!(
        text,
        "change 2 claims source 20202020-2020-2020-2020-202020202020 but the request declares \
         10101010-1010-1010-1010-101010101010"
    );
    let zero = push(vec![change(0, local())]);
    assert_eq!(
        validate_batch_metadata(&zero).unwrap_err(),
        "a change carries sequence 0, below the first WAL sequence"
    );
    let twice = push(vec![change(3, local()), change(2, local()), change(3, local())]);
    assert_eq!(
        validate_batch_metadata(&twice).unwrap_err(),
        "sequence 3 appears more than once"
    );

    let mut tight = push(vec![]);
    tight.reply_limit_bytes = 1023;
    assert!(matches!(
        server.handle_push(&tight, &result),
        Err(SyncError::PayloadTooLarge { size: 1024, max: 1023 })
    ));
    assert_eq!(server.stats().skewed_timestamps, 0);
}

#[test]
fn an_acknowledgement_satisfies_its_sender() {
    let mut server = server();
    let request = push(vec![change(4, local()), change(5, local()), change(6, local())]);
    assert!(server.refuse_push(&request).is_none());
    let outcomes = vec![
        ChangeOutcome {
            sequence: 4,
            last_reinforced: None,
            outcome: Some(ApplyOutcome::Applied),
        },
        ChangeOutcome { sequence: 5, last_reinforced: None, outcome: None },
        ChangeOutcome {
            sequence: 6,
            last_reinforced: Some(Timestamp::from_millis(i64::MAX)),
            outcome: Some(ApplyOutcome::Skipped),
        },
    ];
    let result = RemoteChangeApplier::new(SyncConfig::default())
        .apply_batch(&outcomes, Timestamp::from_millis(0));
    let ack = server
        .handle_push(&request, &result)
        .unwrap()
        .into_result(peer())
        .unwrap();
    assert_eq!(
        ack,
        PushAck { wal_owner: local(), accepted: 2, rejected: 1, total: 3, safe_through: Some(4) }
    );
    assert!(validate_ack(&ack, local(), &vec![4, 5, 6]).is_ok());
    assert_eq!(server.stats().skewed_timestamps, 1);
}

#[test]
fn an_acknowledgement_that_does_not_match_is_refused() {
    let good = PushAck {
        wal_owner: local(),
        accepted: 1,
        rejected: 1,
        total: 2,
        safe_through: Some(4),
    };
    let sent = vec![4u64, 5];
    assert!(validate_ack(&good, local(), &sent).is_ok());
    let text = |ack: PushAck| validate_ack(&ack, local(), &sent).unwrap_err().to_string();
    assert_eq!(
        text(PushAck { wal_owner: peer(), ..good }),
        "Invalid sync payload: push acknowledgement names WAL owner \
         20202020-2020-2020-2020-202020202020 but this instance is \
         10101010-1010-1010-1010-101010101010"
    );
    assert_eq!(
        text(PushAck { accepted: 2, ..good }),
        "Invalid sync payload: push acknowledgement counts 2+1=2 do not match the 2 changes sent"
    );
    assert_eq!(
        text(PushAck { accepted: 2, total: 3, ..good }),
        "Invalid sync payload: push acknowledgement counts 2+1=3 do not match the 2 changes sent"
    );
    assert_eq!(
        text(PushAck { safe_through: Some(6), ..good }),
        "Invalid sync payload: push acknowledgement names position 6, which was not in the batch"
    );
}

#[test]
fn a_batch_stops_at_the_byte_budget_and_before_the_first_change_left_out() {
    let candidates = vec![filtered(1), sendable(2, 10), sendable(3, 10), filtered(4), sendable(5, 10)];
    let packed = pack(candidates, 0, 30, 50, 100).unwrap();
    assert_eq!(sequences(&packed.changes), vec![2, 3]);
    assert_eq!(packed.scanned, 4);
    assert_eq!(packed.taken, 4);

    let candidates = vec![sendable(1, 10), filtered(2), sendable(3, 10)];
    let packed = pack(candidates, 0, 30, 1_000, 1).unwrap();
    assert_eq!(sequences(&packed.changes), vec![1]);
    assert_eq!(packed.scanned, 2);
}

#[test]
fn a_change_too_large_for_any_body_is_reported() {
    let err = pack(vec![sendable(7, 21)], 6, 30, 50, 10).unwrap_err();
    assert!(matches!(err, SyncError::ChangeTooLarge { sequence: 7, needed: 51, cap: 50 }));
    let packed = pack(vec![filtered(7), sendable(8, 21)], 6, 30, 50, 10).unwrap();
    assert!(packed.changes.is_empty());
    assert_eq!(packed.scanned, 7);
}

#[test]
fn an_unreadable_event_is_a_failure_and_not_a_skip() {
    let broken = LogCandidate {
        sequence: 2,
        change: Err(SyncError::transport("lost")),
        item_len: 0,
    };
    let err = pack(vec![filtered(1), broken], 0, 30, 50, 10).unwrap_err();
    assert!(matches!(err, SyncError::Transport(ref m) if m == "lost"));
}

fn pusher(batch_size: usize) -> LocalChangePusher {
    let config = SyncConfig { batch_size, ..SyncConfig::default() };
    LocalChangePusher::new(config, local(), peer(), 64 * 1024 * 1024, 0)
}

/// Events of a log behind a position, at most a batch of them.
fn events(log: &[u64], pusher: &LocalChangePusher) -> Vec<LogCandidate> {
    log.iter()
        .filter(|n| **n > pusher.position)
        .take(pusher.config.batch_size)
        .map(|n| sendable(*n, 100))
        .collect()
}

fn exchange(
    pusher: &mut LocalChangePusher,
    log: &[u64],
    answer: impl Fn(&[u64]) -> PushAck,
) -> (Vec<u64>, PushOutcome) {
    let PackedPush { changes, scanned, .. } =
        pusher.push_pending(events(log, pusher), 60).unwrap();
    let sent = sequences(&changes);
    let request = pusher.request(changes, 1 << 20);
    assert_eq!(request.target_instance, peer());
    assert_eq!(request.reply_limit_bytes, 1 << 20);
    match pusher.conclude(scanned, &sent, Ok(WireReply::ok(peer(), answer(&sent)))) {
        PushStep::Save { next, count } => {
            let outcome = pusher.saved(next, count, Ok(())).unwrap();
            (sent, outcome)
        }
        PushStep::Over(r) => panic!("unexpected end {r:?}"),
    }
}

#[test]
fn recovery_v5_a_reused_pusher_resumes_from_persisted_progress() {
    let log = [1u64, 2, 3, 4, 5];
    let mut pusher = pusher(250);
    let partial = |sent: &[u64]| {
        let total = sent.len() as u64;
        let (accepted, rejected, safe_through) = match sent.first() {
            Some(first) if total > 1 => (1, total - 1, Some(*first)),
            Some(first) => (1, 0, Some(*first)),
            None => (0, 0, None),
        };
        PushAck { wal_owner: local(), accepted, rejected, total, safe_through }
    };
    let mut batches = Vec::new();
    let (sent, outcome) = exchange(&mut pusher, &log, partial);
    batches.push(sent);
    assert!(matches!(outcome, PushOutcome::Pushed(5)));
    assert_eq!(pusher.position, 1);
    let (sent, _) = exchange(&mut pusher, &log, partial);
    batches.push(sent);
    assert_eq!(batches.len(), 2);
    assert_eq!(batches[0], vec![1, 2, 3, 4, 5]);
    assert_eq!(batches[1], vec![2, 3, 4, 5]);
}

#[test]
fn a_push_cycle_sends_at_most_batch_size_changes() {
    let log = [1u64, 2, 3, 4, 5, 6];
    let mut pusher = pusher(2);
    let all = |sent: &[u64]| PushAck {
        wal_owner: local(),
        accepted: sent.len() as u64,
        rejected: 0,
        total: sent.len() as u64,
        safe_through: sent.last().copied(),
    };
    for _ in 0..3 {
        let (_, outcome) = exchange(&mut pusher, &log, all);
        assert!(matches!(outcome, PushOutcome::Pushed(2)));
    }
    let (_, outcome) = exchange(&mut pusher, &log, all);
    assert!(matches!(outcome, PushOutcome::Pushed(0)));
}

#[test]
fn a_push_that_is_not_acknowledged_stores_nothing() {
    let mut pusher = pusher(10);
    pusher.reset_to(3);
    let step = pusher.conclude(9, &vec![], Err(SyncError::Timeout));
    assert!(matches!(step, PushStep::Over(Err(SyncError::Timeout))));
    let ack = PushAck {
        wal_owner: local(),
        accepted: 0,
        rejected: 0,
        total: 0,
        safe_through: None,
    };
    let step = pusher.conclude(9, &vec![], Ok(WireReply::ok(local(), ack)));
    assert!(matches!(step, PushStep::Over(Ok(PushOutcome::PeerChanged(id))) if id == local()));
    let step = pusher.conclude(9, &vec![], Ok(WireReply::ok(peer(), ack)));
    assert!(matches!(step, PushStep::Save { next: 9, count: 0 }));
    let err = pusher.saved(9, 0, Err("full".to_string())).unwrap_err();
    assert_eq!(err.to_string(), "Sync transport error: Failed to save push cursor: full");
    assert_eq!(pusher.position, 3);
}

fn record(entity_type: EntityTypeTag, event_type: WatchEventTypeTag) -> WatchEventRecord {
    WatchEventRecord {
        entity_id: [9; 16],
        collective_id: [1; 16],
        event_type,
        timestamp_ms: 42,
        entity_type,
    }
}

fn experience() -> Experience {
    Experience {
        id: ExperienceId::from_bytes([9; 16]),
        collective_id: CollectiveId::from_bytes([1; 16]),
        content: "c".to_string(),
        embedding: vec![],
        experience_type: ExperienceType { tag: ExperienceTypeTag::Fact, detail: String::new() },
        importance: 1,
        confidence: 2,
        applications: BTreeMap::from([(5u128, 6u32)]),
        domain: vec!["d".to_string()],
        tags: vec![],
        related_files: vec![],
        source_agent: "a".to_string(),
        source_task: None,
        timestamp: Timestamp::from_millis(1),
        last_reinforced: Timestamp::from_millis(2),
        archived: true,
    }
}

#[test]
fn an_event_becomes_the_change_it_stands_for() {
    let created = record(EntityTypeTag::Experience, WatchEventTypeTag::Created);
    assert_eq!(
        entity_needed(&created),
        Some(EntityRef::Experience(ExperienceId::from_bytes([9; 16])))
    );
    let built = build_change_from_record(
        7,
        &created,
        peer(),
        Ok(Some(Entity::Experience(experience()))),
    )
    .unwrap()
    .unwrap();
    assert_eq!(built.sequence, 7);
    assert_eq!(built.source_instance, peer());
    assert_eq!(built.collective_id, CollectiveId::from_bytes([1; 16]));
    assert_eq!(built.timestamp, Timestamp::from_millis(42));
    assert!(matches!(built.payload, SyncPayload::ExperienceCreated(ref e) if e.content == "c"));

    let updated = record(EntityTypeTag::Experience, WatchEventTypeTag::Updated);
    let built = build_change_from_record(
        8,
        &updated,
        peer(),
        Ok(Some(Entity::Experience(experience()))),
    )
    .unwrap()
    .unwrap();
    match built.payload {
        SyncPayload::ExperienceUpdated { id, update, timestamp } => {
            assert_eq!(id, ExperienceId::from_bytes([9; 16]));
            assert_eq!(timestamp, Timestamp::from_millis(42));
            assert_eq!(update.importance, Some(1));
            assert_eq!(update.archived, Some(true));
            assert_eq!(update.applications, Some(BTreeMap::from([(5u128, 6u32)])));
            assert_eq!(update.last_reinforced, Some(Timestamp::from_millis(2)));
        }
        other => panic!("unexpected {other:?}"),
    }
    assert!(build_change_from_record(9, &updated, peer(), Ok(None)).unwrap().is_none());
    let err = build_change_from_record(9, &updated, peer(), Err("x".to_string())).unwrap_err();
    assert_eq!(err.to_string(), "Sync transport error: Failed to load entity: x");
    for (entity, event) in [
        (EntityTypeTag::Experience, WatchEventTypeTag::Archived),
        (EntityTypeTag::Experience, WatchEventTypeTag::Deleted),
        (EntityTypeTag::Relation, WatchEventTypeTag::Deleted),
        (EntityTypeTag::Insight, WatchEventTypeTag::Deleted),
    ] {
        let r = record(entity, event);
        assert!(entity_needed(&r).is_none());
        assert!(build_change_from_record(1, &r, peer(), Err("x".to_string())).unwrap().is_some());
    }
    for (entity, event) in [
        (EntityTypeTag::Collective, WatchEventTypeTag::Deleted),
        (EntityTypeTag::Relation, WatchEventTypeTag::Updated),
        (EntityTypeTag::Insight, WatchEventTypeTag::Archived),
    ] {
        let r = record(entity, event);
        assert!(build_change_from_record(1, &r, peer(), Ok(None)).unwrap().is_none());
    }
}

#[test]
fn a_pusher_sends_what_its_settings_let_through() {
    let mut config = SyncConfig {
        collectives: Some(vec![CollectiveId::from_bytes([1; 16])]),
        sync_relations: false,
        ..SyncConfig::default()
    };
    let pusher = LocalChangePusher::new(config.clone(), local(), peer(), 4096, 0);
    let gone = record(EntityTypeTag::Experience, WatchEventTypeTag::Deleted);
    assert!(pusher.record_to_change(1, &gone, Ok(None)).unwrap().is_some());
    let relation = record(EntityTypeTag::Relation, WatchEventTypeTag::Deleted);
    assert!(pusher.record_to_change(1, &relation, Err("x".to_string())).unwrap().is_none());
    config.collectives = Some(vec![CollectiveId::from_bytes([2; 16])]);
    let narrow = LocalChangePusher::new(config, local(), peer(), 4096, 0);
    assert!(narrow.record_to_change(1, &gone, Ok(None)).unwrap().is_none());
    assert_eq!(pusher.push_cap_bytes(), 4096);
    assert_eq!(pusher.reply_limit_bytes(100), 100);
    let c = Collective {
        id: CollectiveId::from_bytes([9; 16]),
        name: "n".to_string(),
        owner_id: None,
        embedding_dimension: 384,
        created_at: Timestamp::from_millis(0),
        updated_at: Timestamp::from_millis(0),
    };
    let created = record(EntityTypeTag::Collective, WatchEventTypeTag::Created);
    let sent = pusher
        .record_to_change(3, &created, Ok(Some(Entity::Collective(c))))
        .unwrap()
        .unwrap();
    assert_eq!(sent.entity_type, SyncEntityType::Collective);
    assert_eq!(sent.source_instance, local());
}

fn pull(cursor: u64) -> PullRequest {
    PullRequest {
        protocol_version: SYNC_PROTOCOL_VERSION,
        source_instance: local(),
        target_instance: peer(),
        cursor: SyncPosition::new(peer(), cursor),
        batch_size: 10,
        reply_limit_bytes: 1 << 20,
        collectives: None,
    }
}

fn page(reply: WireReply<PullPage>) -> PullPage {
    reply.into_result(peer()).unwrap()
}

fn pull_detail(request: PullRequest) -> String {
    match server().handle_pull(&request, Ok(vec![]), 60).unwrap().result {
        WireResult::Rejected { detail, .. } => detail,
        other => panic!("expected a refusal, got {other:?}"),
    }
}

#[test]
fn a_pull_is_refused_from_its_metadata() {
    let mut request = pull(0);
    request.protocol_version = 6;
    assert_eq!(pull_detail(request), "server speaks protocol v5, request declared v6");
    let mut request = pull(0);
    request.batch_size = 0;
    assert_eq!(pull_detail(request), "pull requested zero changes");
    let mut request = pull(0);
    request.reply_limit_bytes = 1000;
    assert_eq!(
        pull_detail(request),
        "pull declared a 1000-byte reply limit, below the 1024-byte control minimum"
    );
    let mut request = pull(0);
    request.cursor.instance_id = local();
    assert_eq!(
        pull_detail(request),
        "pull cursor names WAL owner 10101010-1010-1010-1010-101010101010 but this instance is \
         20202020-2020-2020-2020-202020202020"
    );
    let mut request = pull(0);
    request.target_instance = local();
    let reply = server().handle_pull(&request, Err("unread".to_string()), 60).unwrap();
    assert!(matches!(reply.result, WireResult::PeerChanged { .. }));
    let err = server().handle_pull(&pull(0), Err("x".to_string()), 60).unwrap_err();
    assert_eq!(err.to_string(), "Sync transport error: Failed to poll WAL for pull: x");
}

#[test]
fn a_page_covers_filtered_events_and_reports_exhaustion() {
    let served = page(
        server()
            .handle_pull(&pull(0), Ok(vec![sendable(3, 10), filtered(4), filtered(9)]), 60)
            .unwrap(),
    );
    assert_eq!(sequences(&served.changes), vec![3]);
    assert_eq!(served.scan_position, SyncPosition::new(peer(), 9));
    assert!(!served.has_more);

    let mut request = pull(0);
    request.batch_size = 1;
    let served = page(
        server()
            .handle_pull(&request, Ok(vec![sendable(3, 10), filtered(4), sendable(9, 10)]), 60)
            .unwrap(),
    );
    assert_eq!(sequences(&served.changes), vec![3]);
    assert_eq!(served.scan_position.sequence, 4);
    assert!(served.has_more);

    let mut request = pull(0);
    request.collectives = Some(vec![]);
    let served =
        page(server().handle_pull(&request, Ok(vec![sendable(3, 10)]), 60).unwrap());
    assert!(served.changes.is_empty());
    assert_eq!(served.scan_position.sequence, 3);
    assert!(!served.has_more);

    let full: Vec<LogCandidate> = (1..=PULL_PAGE_EVENT_LIMIT as u64).map(filtered).collect();
    let served = page(server().handle_pull(&pull(0), Ok(full), 60).unwrap());
    assert_eq!(served.scan_position.sequence, PULL_PAGE_EVENT_LIMIT as u64);
    assert!(served.has_more);
}

/// What a server reads of its log behind `since`.
fn read_log(log: &Vec<(u64, WatchEventRecord)>, since: u64) -> Vec<LogCandidate> {
    poll_sync_events(log, since, PULL_PAGE_EVENT_LIMIT)
        .iter()
        .map(|(sequence, record)| LogCandidate {
            sequence: *sequence,
            change: build_change_from_record(*sequence, record, peer(), Ok(None)),
            item_len: 40,
        })
        .collect()
}

#[test]
fn a_run_of_pulls_tells_the_whole_log_once_and_in_order() {
    let mut log: Vec<(u64, WatchEventRecord)> = Vec::new();
    let mut told = Vec::new();
    for n in 0..2_500u64 {
        let sequence = 3 * n + 1;
        let kind = if n % 7 == 0 {
            // The record of a creation is gone by now.
            WatchEventTypeTag::Created
        } else {
            told.push(sequence);
            WatchEventTypeTag::Deleted
        };
        log.push((sequence, record(EntityTypeTag::Experience, kind)));
    }
    let mut seen = Vec::new();
    let mut cursor = 0;
    let mut pages = 0;
    loop {
        let mut request = pull(cursor);
        request.batch_size = 400;
        let served = page(server().handle_pull(&request, Ok(read_log(&log, cursor)), 60).unwrap());
        seen.extend(sequences(&served.changes));
        pages += 1;
        if !served.has_more {
            cursor = served.scan_position.sequence;
            break;
        }
        assert!(served.scan_position.sequence > cursor);
        cursor = served.scan_position.sequence;
    }
    assert_eq!(seen, told);
    assert_eq!(cursor, log.last().unwrap().0);
    assert!(pages > 1);
}

#[test]
fn a_position_that_would_widen_the_reply_over_its_cap_is_held_back() {
    let mut request = pull(100);
    request.reply_limit_bytes = 1024;
    let events = vec![sendable(101, 1024 - 60), filtered(127), filtered(128)];
    let served = page(server().handle_pull(&request, Ok(events), 60).unwrap());
    assert_eq!(sequences(&served.changes), vec![101]);
    assert_eq!(served.scan_position.sequence, 127);
    assert!(served.has_more);
}

#[test]
fn a_change_no_page_can_carry_is_named() {
    let mut request = pull(100);
    request.reply_limit_bytes = 1024;
    let reply = server().handle_pull(&request, Ok(vec![sendable(101, 965)]), 60).unwrap();
    let err = reply.into_result(peer()).unwrap_err();
    assert!(matches!(err, SyncError::ChangeTooLarge { sequence: 101, needed: 1025, cap: 1024 }));
}

#[test]
fn the_scan_moves_only_forward_and_only_within_the_cap() {
    let mut sizer = FrameSizer::new(50);
    let mut scanned = 127u64;
    assert!(!advance_scan_within_cap(&mut sizer, &mut scanned, 128, 50).unwrap());
    assert_eq!((sizer.envelope(), scanned), (50, 127));
    assert!(advance_scan_within_cap(&mut sizer, &mut scanned, 128, 51).unwrap());
    assert_eq!((sizer.envelope(), scanned), (51, 128));
    let err = advance_scan_within_cap(&mut sizer, &mut scanned, 5, 100).unwrap_err();
    assert_eq!(
        err.to_string(),
        "Sync serialization error: pull scan moved backwards, from 128 to 5"
    );
    let mut full = FrameSizer::new(usize::MAX);
    let mut at = 1u64;
    let err = advance_scan_within_cap(&mut full, &mut at, 200, usize::MAX).unwrap_err();
    assert!(err.to_string().contains("overflows"));
}

#[test]
fn a_store_that_cannot_be_read_is_not_healthy() {
    assert!(server().handle_health(Ok(3)).is_ok());
    let err = server().handle_health(Err("gone".to_string())).unwrap_err();
    assert_eq!(err.to_string(), "Sync transport error: Health check failed: gone");
}

#[test]
fn details_are_cut_at_whole_characters() {
    assert_eq!(bound_wire_detail("short"), "short");
    let long = "\u{e9}".repeat(200);
    let cut = bound_wire_detail(&long);
    assert_eq!(cut, "\u{e9}".repeat(128));
    assert_eq!(SYNC_WIRE_PREAMBLE_LEN, 4);
}

#[test]
fn a_reply_of_another_version_is_no_answer() {
    let mut reply = WireReply::ok(peer(), 1u8);
    reply.protocol_version = 4;
    assert!(matches!(
        reply.into_result(peer()),
        Err(SyncError::ProtocolVersion { local: 5, remote: 4 })
    ));
    let refused: WireReply<u8> =
        WireReply::rejected(peer(), WireErrorCode::InvalidRequest, "no");
    assert!(matches!(
        refused.into_result(peer()),
        Err(SyncError::RemoteRejected { code: WireErrorCode::InvalidRequest, .. })
    ));
}

#[test]
fn what_an_honest_peer_sends_is_accepted() {
    let binding = PeerBinding { identity: peer(), receive_budget: 1 << 20 };
    let config = SyncConfig { batch_size: 2, ..SyncConfig::default() };
    let request = pull_request(&config, local(), &binding, 4, 1 << 20);
    let log = vec![sendable(5, 10), filtered(6), sendable(9, 10), sendable(12, 10)];
    let reply = server().handle_pull(&request, Ok(log), 60);
    let page = pull_page(reply, &config, &binding, 4).unwrap();
    assert_eq!(sequences(&page.changes), vec![5, 9]);
    assert_eq!(page.scan_position, SyncPosition::new(peer(), 9));
    assert!(page.has_more);

    let packed = pack(vec![sendable(5, 10), filtered(6), sendable(9, 10)], 4, 60, 1 << 20, 9);
    let request = PushRequest {
        protocol_version: SYNC_PROTOCOL_VERSION,
        source_instance: peer(),
        target_instance: local(),
        reply_limit_bytes: 1 << 20,
        changes: packed.unwrap().changes,
    };
    assert!(validate_batch_metadata(&request).is_ok());
}
