//! Sync failures.

use pulsedb::sync::error::SyncError;
use pulsedb::sync::types::WireErrorCode;
use pulsedb::sync::wire::WireOperation;
use pulsedb::types::InstanceId;

#[test]
fn test_sync_error_display() {
    let err = SyncError::transport("connection refused");
    assert_eq!(err.to_string(), "Sync transport error: connection refused");
}

#[test]
fn test_protocol_version_display() {
    let err = SyncError::ProtocolVersion {
        local: 1,
        remote: 2,
    };
    assert_eq!(
        err.to_string(),
        "Sync protocol version mismatch: local v1, remote v2"
    );
}

#[test]
fn test_sync_error_is_checks() {
    assert!(SyncError::transport("x").is_transport());
    assert!(SyncError::Timeout.is_timeout());
    assert!(SyncError::ConnectionLost.is_connection_lost());
    assert!(SyncError::Shutdown.is_shutdown());
}

#[test]
fn test_catch_up_incomplete_typed_and_distinct() {
    let peer = InstanceId::from_bytes([0x5a; 16]);
    let stalled = SyncError::catch_up_stalled(peer, 42);
    let failed = SyncError::catch_up_apply_failed(peer, 42, 3);

    // Both shapes are the typed catch-up signal, not a transport failure.
    assert!(stalled.is_catch_up_incomplete());
    assert!(failed.is_catch_up_incomplete());
    assert!(!stalled.is_transport());
    assert!(!SyncError::transport("x").is_catch_up_incomplete());

    // Each names the peer, where it stopped, and what stopped it.
    for error in [&stalled, &failed] {
        let text = error.to_string();
        assert!(text.contains(&peer.to_string()), "{text}");
        assert!(text.contains("42"), "{text}");
    }
    assert!(stalled.to_string().contains("did not advance the cursor"));
    assert!(failed.to_string().contains("3 change(s) failed to apply"));
}

#[test]
fn test_postcard_error_conversion() {
    // Deserializing truncated bytes triggers a postcard error.
    let bad_bytes = vec![0u8; 0]; // too short for a (u64, u64)
    let postcard_err = postcard::from_bytes::<(u64, u64)>(&bad_bytes).unwrap_err();
    let sync_err: SyncError = postcard_err.into();
    assert!(matches!(sync_err, SyncError::Serialization(_)));
}

#[test]
fn test_payload_too_large_typed_and_distinct() {
    let err = SyncError::PayloadTooLarge { size: 65, max: 64 };
    assert!(err.is_payload_too_large());
    assert!(!err.is_wire_format_mismatch());
    assert!(!SyncError::serialization("x").is_payload_too_large());
    assert_eq!(
        err.to_string(),
        "Sync payload too large: 65 bytes exceeds the 64-byte cap"
    );
}

#[test]
fn test_wire_format_mismatch_typed_and_distinct() {
    let bad_magic = SyncError::wire_format_bad_magic(3);
    let wrong_ver = SyncError::wire_format_version(3, 2);

    // Both are the typed wire-format signal, NOT a generic Serialization.
    assert!(bad_magic.is_wire_format_mismatch());
    assert!(wrong_ver.is_wire_format_mismatch());
    assert!(!SyncError::serialization("x").is_wire_format_mismatch());

    // Distinct from protocol-semantics ProtocolVersion.
    assert!(matches!(
        bad_magic,
        SyncError::WireFormatMismatch { got: None, .. }
    ));
    assert!(matches!(
        wrong_ver,
        SyncError::WireFormatMismatch {
            expected: 3,
            got: Some(2)
        }
    ));
}

#[test]
fn every_failure_has_its_text() {
    let a = InstanceId::from_bytes([0x11; 16]);
    let b = InstanceId::from_bytes([0x22; 16]);
    let cases = vec![
        (SyncError::handshake("no"), "Sync handshake failed: no"),
        (SyncError::serialization("bad"), "Sync serialization error: bad"),
        (SyncError::Timeout, "Sync operation timed out"),
        (SyncError::ConnectionLost, "Connection to sync peer lost"),
        (
            SyncError::wire_format_bad_magic(4),
            "Sync wire-format mismatch: expected wire format v4, got bad/absent magic",
        ),
        (
            SyncError::wire_format_version(4, 3),
            "Sync wire-format mismatch: expected wire format v4, got v3",
        ),
        (SyncError::invalid_payload("odd"), "Invalid sync payload: odd"),
        (
            SyncError::WireOperationMismatch { expected: 3, got: 2 },
            "Sync wire operation mismatch: this endpoint serves operation 3, got 2",
        ),
        (
            SyncError::PeerChanged { expected: a, responder: b },
            "Sync peer changed: expected instance 11111111-1111-1111-1111-111111111111, \
             endpoint answered as 22222222-2222-2222-2222-222222222222",
        ),
        (
            SyncError::ChangeTooLarge { sequence: 7, needed: 2048, cap: 1024 },
            "Sync change 7 needs 2048 bytes on its own, over the 1024-byte body cap",
        ),
        (
            SyncError::RequestTooLarge {
                operation: WireOperation::Pull,
                needed: 5000,
                cap: 4096,
            },
            "Sync Pull request needs 5000 bytes, over the 4096-byte send budget",
        ),
        (
            SyncError::RemoteRejected {
                code: WireErrorCode::InvalidRequest,
                detail: "nope".to_string(),
            },
            "Sync request rejected by peer: InvalidRequest: nope",
        ),
        (
            SyncError::missing_experience("e1"),
            "Sync change depends on experience e1, which is absent locally",
        ),
        (SyncError::config("x"), "Invalid sync configuration: x"),
        (
            SyncError::CursorNotFound { instance: a },
            "No sync cursor found for instance 11111111-1111-1111-1111-111111111111",
        ),
        (SyncError::Shutdown, "Sync system is shutting down"),
    ];
    for (error, text) in &cases {
        assert_eq!(&error.to_string(), text);
    }
    assert!(cases[8].0.is_peer_changed());
    assert!(cases[9].0.is_change_too_large());
    assert!(cases[10].0.is_request_too_large());
    assert!(cases[12].0.is_missing_dependency());
    assert!(cases[13].0.is_config());
    assert!(cases[7].0.is_protocol_incompatible() && cases[7].0.is_wire_operation_mismatch());
    assert!(!cases[13].0.is_protocol_incompatible());
}

#[test]
fn a_decoder_failure_keeps_its_own_words() {
    let decoder = postcard::from_bytes::<u64>(&[]).unwrap_err();
    let words = format!("Sync serialization error: {}", decoder);
    assert_eq!(SyncError::from(decoder).to_string(), words);
}
