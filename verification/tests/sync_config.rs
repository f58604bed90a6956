//! Sync settings.

use pulsedb::error::ValidationError;
use pulsedb::sync::config::{
    default_max_clock_skew_ms, default_max_request_bytes, is_allowed, ConflictResolution,
    RetryConfig, SyncConfig, SyncDirection, DEFAULT_MAX_CLOCK_SKEW_MS, DEFAULT_MAX_REQUEST_BYTES,
};
use pulsedb::sync::wire::MIN_CONTROL_FRAME_BYTES;
use pulsedb::types::CollectiveId;

#[test]
fn test_sync_config_defaults() {
    let config = SyncConfig::default();
    assert_eq!(config.direction, SyncDirection::Bidirectional);
    assert_eq!(config.conflict_resolution, ConflictResolution::ServerWins);
    assert_eq!(config.batch_size, 250);
    assert_eq!(config.push_interval_ms, 1000);
    assert_eq!(config.pull_interval_ms, 1000);
    assert!(config.collectives.is_none());
    assert!(config.sync_relations);
    assert!(config.sync_insights);
    assert_eq!(config.max_request_bytes, 64 * 1024 * 1024);
    assert_eq!(config.max_request_bytes, DEFAULT_MAX_REQUEST_BYTES);
    assert_eq!(config.max_clock_skew_ms, 300_000);
    assert_eq!(config.max_clock_skew_ms, DEFAULT_MAX_CLOCK_SKEW_MS);
    assert_eq!(default_max_request_bytes(), DEFAULT_MAX_REQUEST_BYTES);
    assert_eq!(default_max_clock_skew_ms(), DEFAULT_MAX_CLOCK_SKEW_MS);
}

#[test]
fn test_sync_config_validate_success() {
    let config = SyncConfig::default();
    assert!(config.validate().is_ok());
}

#[test]
fn test_sync_config_validate_zero_max_request_bytes() {
    let config = SyncConfig {
        max_request_bytes: 0,
        ..Default::default()
    };
    let err = config.validate().unwrap_err();
    assert!(
        matches!(err, ValidationError::InvalidField { field, .. } if field == "max_request_bytes")
    );
}

#[test]
fn test_sync_config_validate_zero_batch_size() {
    let config = SyncConfig {
        batch_size: 0,
        ..Default::default()
    };
    let err = config.validate().unwrap_err();
    assert!(
        matches!(err, ValidationError::InvalidField { field, .. } if field == "batch_size")
    );
}

#[test]
fn test_sync_config_validate_zero_push_interval() {
    let config = SyncConfig {
        push_interval_ms: 0,
        ..Default::default()
    };
    let err = config.validate().unwrap_err();
    assert!(
        matches!(err, ValidationError::InvalidField { field, .. } if field == "push_interval_ms")
    );
}

#[test]
fn test_sync_config_validate_zero_pull_interval() {
    let config = SyncConfig {
        pull_interval_ms: 0,
        ..Default::default()
    };
    let err = config.validate().unwrap_err();
    assert!(
        matches!(err, ValidationError::InvalidField { field, .. } if field == "pull_interval_ms")
    );
}

#[test]
fn recovery_v5_validate_enforces_the_control_frame_minimum() {
    let under = SyncConfig {
        max_request_bytes: MIN_CONTROL_FRAME_BYTES - 1,
        ..Default::default()
    };
    let err = under.validate().unwrap_err();
    assert!(
        matches!(err, ValidationError::InvalidField { ref field, .. } if field == "max_request_bytes"),
        "got {err:?}"
    );
    assert!(err.to_string().contains("MIN_CONTROL_FRAME_BYTES"), "{err:?}");

    let at = SyncConfig {
        max_request_bytes: MIN_CONTROL_FRAME_BYTES,
        ..Default::default()
    };
    at.validate()
        .expect("a cap exactly at the control minimum is usable");
}

#[test]
fn recovery_v5_validate_no_longer_imposes_an_estimated_byte_floor() {
    let config = SyncConfig {
        batch_size: 10_000,
        max_request_bytes: MIN_CONTROL_FRAME_BYTES,
        ..Default::default()
    };
    config.validate().expect(
        "batch_size is a count ceiling; the byte cap is enforced exactly by the packer",
    );

    let old_default = SyncConfig {
        batch_size: 500,
        ..Default::default()
    };
    old_default.validate().unwrap();
}

#[test]
fn test_retry_config_defaults() {
    let config = RetryConfig::default();
    assert_eq!(config.max_retries, 5);
    assert_eq!(config.initial_backoff_ms, 500);
    assert_eq!(config.max_backoff_ms, 30_000);
    assert!((f64::from_bits(config.backoff_multiplier) - 2.0).abs() < f64::EPSILON);
}

#[test]
fn directions_say_what_flows() {
    assert!(SyncDirection::PushOnly.pushes() && !SyncDirection::PushOnly.pulls());
    assert!(!SyncDirection::PullOnly.pushes() && SyncDirection::PullOnly.pulls());
    assert!(SyncDirection::default().pushes() && SyncDirection::default().pulls());
}

#[test]
fn a_filter_lets_through_what_it_names() {
    let a = CollectiveId::from_bytes([1; 16]);
    let b = CollectiveId::from_bytes([2; 16]);
    assert!(is_allowed(&None, a));
    assert!(is_allowed(&Some(vec![b, a]), a));
    assert!(!is_allowed(&Some(vec![b]), a));
    assert!(!is_allowed(&Some(vec![]), a));
}
