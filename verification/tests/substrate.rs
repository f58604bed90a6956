//! Substrate marker, migration headroom, and the re-encode registry.

use pulsedb::config::Config;
use pulsedb::error::{PulseDBError, StorageError};
use pulsedb::storage::redb::{
    decode_substrate_marker, encode_substrate_marker, read_substrate_marker, RedbStorage,
    SubstrateFormat, SINGLE_TXN_STORE_FLOOR_BYTES,
};
use pulsedb::storage::reencode::{serde_blob_tables, Table};
use pulsedb::storage::schema::{
    CURRENT_SUBSTRATE_FORMAT, LEGACY_SUBSTRATE_FORMAT, SUBSTRATE_MAGIC_0, SUBSTRATE_MAGIC_1,
    SUBSTRATE_MARKER_LEN,
};

fn default_config() -> Config {
    Config::default()
}

#[test]
fn test_substrate_marker_fixed_layout_encoding() {
    let bytes = encode_substrate_marker(CURRENT_SUBSTRATE_FORMAT);
    assert_eq!(bytes.len(), SUBSTRATE_MARKER_LEN);
    assert_eq!(bytes[0], SUBSTRATE_MAGIC_0);
    assert_eq!(bytes[1], SUBSTRATE_MAGIC_1);
    assert_eq!(bytes[2], CURRENT_SUBSTRATE_FORMAT);
    assert_eq!(&bytes[..2], b"PS");
}

#[test]
fn test_substrate_marker_encode_decode_roundtrip() {
    for version in [0u8, 1, 7, 42, 255] {
        let bytes = encode_substrate_marker(version);
        let decoded = decode_substrate_marker(&bytes).unwrap();
        assert_eq!(decoded, version);
    }
}

#[test]
fn test_decode_substrate_marker_rejects_wrong_length() {
    assert!(decode_substrate_marker(&[]).is_err());
    assert!(decode_substrate_marker(b"PS").is_err());
    assert!(decode_substrate_marker(&[b'P', b'S', 1, 0]).is_err());
}

#[test]
fn test_decode_substrate_marker_rejects_bad_magic() {
    let err = decode_substrate_marker(&[b'X', b'Y', 1]).unwrap_err();
    assert!(
        matches!(err, PulseDBError::Storage(StorageError::Corrupted(ref m)) if m.contains("magic")),
        "err: {err:?}"
    );
}

#[test]
fn test_substrate_format_classify() {
    assert_eq!(
        SubstrateFormat::classify(CURRENT_SUBSTRATE_FORMAT),
        SubstrateFormat::Current
    );
    assert_eq!(
        SubstrateFormat::classify(CURRENT_SUBSTRATE_FORMAT - 1),
        SubstrateFormat::Older(CURRENT_SUBSTRATE_FORMAT - 1)
    );
    assert_eq!(
        SubstrateFormat::classify(CURRENT_SUBSTRATE_FORMAT + 1),
        SubstrateFormat::Newer(CURRENT_SUBSTRATE_FORMAT + 1)
    );
    assert_eq!(SubstrateFormat::Absent.version(), LEGACY_SUBSTRATE_FORMAT);
    assert_eq!(SubstrateFormat::Older(0).version(), 0);
    assert_eq!(SubstrateFormat::Newer(9).version(), 9);
}

#[test]
fn test_codec_txn_shape_below_floor_is_single_txn() {
    let cfg = default_config();
    assert!(RedbStorage::resolve_codec_txn_shape(10 * 1024 * 1024, 0, &cfg).is_ok());
    assert!(RedbStorage::resolve_codec_txn_shape(
        SINGLE_TXN_STORE_FLOOR_BYTES,
        0,
        &cfg
    )
    .is_ok());
}

#[test]
fn test_codec_txn_shape_above_floor_undeclared_fails_closed() {
    let cfg = default_config();
    let store_size = 4 * SINGLE_TXN_STORE_FLOOR_BYTES; // 4 GiB
    let err = RedbStorage::resolve_codec_txn_shape(store_size, 0, &cfg).unwrap_err();
    match err {
        PulseDBError::Storage(StorageError::SubstrateMigrationTooLarge {
            store_size: s,
            projected_peak,
            budget,
        }) => {
            assert_eq!(s, store_size);
            assert_eq!(
                projected_peak,
                RedbStorage::projected_peak_with_margin(store_size)
            );
            assert!(projected_peak > store_size / 10);
            assert_eq!(budget, SINGLE_TXN_STORE_FLOOR_BYTES);
        }
        other => panic!("expected SubstrateMigrationTooLarge, got: {other:?}"),
    }
}

#[test]
fn test_codec_txn_shape_above_floor_declared_memory_opts_into_single_txn() {
    let store_size = 4 * SINGLE_TXN_STORE_FLOOR_BYTES; // 4 GiB
    let projected_peak = RedbStorage::projected_peak_with_margin(store_size);
    let mut cfg = default_config();
    cfg.migration_available_memory_bytes = Some(projected_peak * 2 + 2);
    assert!(
        RedbStorage::resolve_codec_txn_shape(store_size, 0, &cfg).is_ok(),
        "a declared budget covering 2× projected peak must allow single-txn"
    );
    let mut cfg_small = default_config();
    cfg_small.migration_available_memory_bytes = Some(projected_peak); // peak !< peak/2
    assert!(matches!(
        RedbStorage::resolve_codec_txn_shape(store_size, 0, &cfg_small),
        Err(PulseDBError::Storage(
            StorageError::SubstrateMigrationTooLarge { .. }
        ))
    ));
}

#[test]
fn test_required_migration_disk_bytes_accounts_for_backup_and_margin() {
    let store_size = 100 * 1024 * 1024; // 100 MiB
    let required = RedbStorage::required_migration_disk_bytes(store_size);
    assert!(
        required >= 2 * store_size,
        "required free ({required}) must cover backup (~1×) + migrated (~1×) for store {store_size}"
    );
}

#[test]
fn test_headroom_preflight_insufficient_disk_fails_closed_before_write() {
    let cfg = default_config();
    let store_size = 100 * 1024 * 1024; // 100 MiB, well below the memory floor
    let required = RedbStorage::required_migration_disk_bytes(store_size);
    let available = required - 1; // one byte short
    let err = RedbStorage::resolve_migration_headroom(store_size, 0, available, &cfg, true)
        .unwrap_err();
    match err {
        PulseDBError::Storage(StorageError::SubstrateMigrationInsufficientDisk {
            store_size: s,
            required: r,
            available: a,
        }) => {
            assert_eq!(s, store_size);
            assert_eq!(r, required);
            assert_eq!(a, available);
        }
        other => panic!("expected SubstrateMigrationInsufficientDisk, got: {other:?}"),
    }
}

#[test]
fn test_headroom_preflight_sufficient_disk_below_floor_proceeds() {
    let cfg = default_config();
    let store_size = 100 * 1024 * 1024; // 100 MiB
    let available = RedbStorage::required_migration_disk_bytes(store_size); // exactly enough
    assert!(
        RedbStorage::resolve_migration_headroom(store_size, 0, available, &cfg, true).is_ok(),
        "sufficient disk + below-floor store must pass the unified preflight"
    );
}

#[test]
fn test_headroom_preflight_disk_checked_before_memory() {
    let cfg = default_config(); // no declared memory budget
    let store_size = 4 * SINGLE_TXN_STORE_FLOOR_BYTES; // 4 GiB, above floor
    let required = RedbStorage::required_migration_disk_bytes(store_size);
    let available = required / 2; // insufficient disk
    let err = RedbStorage::resolve_migration_headroom(store_size, 0, available, &cfg, true)
        .unwrap_err();
    assert!(
        matches!(
            err,
            PulseDBError::Storage(StorageError::SubstrateMigrationInsufficientDisk { .. })
        ),
        "disk axis must be evaluated before memory; got: {err:?}"
    );
}

#[test]
fn test_headroom_preflight_sufficient_disk_above_floor_undeclared_fails_on_memory() {
    let cfg = default_config(); // no declared memory budget
    let store_size = 4 * SINGLE_TXN_STORE_FLOOR_BYTES; // 4 GiB, above floor
    let available = RedbStorage::required_migration_disk_bytes(store_size) * 2;
    let err = RedbStorage::resolve_migration_headroom(store_size, 0, available, &cfg, true)
        .unwrap_err();
    assert!(
        matches!(
            err,
            PulseDBError::Storage(StorageError::SubstrateMigrationTooLarge { .. })
        ),
        "ample disk but no memory budget above floor must fail on the memory axis; got: {err:?}"
    );
}

#[test]
fn test_headroom_preflight_above_floor_declared_memory_and_disk_proceeds() {
    let store_size = 4 * SINGLE_TXN_STORE_FLOOR_BYTES; // 4 GiB
    let projected_peak = RedbStorage::projected_peak_with_margin(store_size);
    let mut cfg = default_config();
    cfg.migration_available_memory_bytes = Some(projected_peak * 2 + 2); // clears the margin
    let available = RedbStorage::required_migration_disk_bytes(store_size);
    assert!(
        RedbStorage::resolve_migration_headroom(store_size, 0, available, &cfg, true).is_ok(),
        "declared memory + sufficient disk must pass the unified preflight above the floor"
    );
}

#[test]
fn test_re_encodable_footprint_excludes_full_copy_through_set() {
    let store_size = 10 * 1024 * 1024;
    let copy_through = 9 * 1024 * 1024; // copy-through dominates
    assert_eq!(
        RedbStorage::re_encodable_footprint(store_size, copy_through),
        1024 * 1024,
        "footprint must exclude the whole copy-through set"
    );
    assert_eq!(
        RedbStorage::re_encodable_footprint(store_size, store_size + 1),
        0
    );
}

#[test]
fn test_peak_safety_margin_biases_projected_peak_up() {
    let footprint = 4 * SINGLE_TXN_STORE_FLOOR_BYTES;
    let bare = RedbStorage::projected_peak_rss(footprint);
    let margined = RedbStorage::projected_peak_with_margin(footprint);
    assert!(
        margined > bare,
        "PEAK_SAFETY_MARGIN must inflate the peak (margined {margined} > bare {bare})"
    );
    assert_eq!(margined, bare.saturating_mul(3).div_ceil(2));
}

#[test]
fn test_embedding_heavy_store_now_opens() {
    let cfg = default_config(); // NO declared memory budget — must pass on its own
    let store_size = 8 * SINGLE_TXN_STORE_FLOOR_BYTES; // 8 GiB total
    let copy_through = store_size - (store_size / 10_000);
    assert!(
        RedbStorage::resolve_codec_txn_shape(store_size, 0, &cfg).is_err(),
        "raw-store_size keying would wrongly fail this store closed (the bug)"
    );
    assert!(
        RedbStorage::resolve_codec_txn_shape(store_size, copy_through, &cfg).is_ok(),
        "copy-through-dominated store must now open (copy_through_excluded peak fits the floor budget)"
    );
}

#[test]
fn test_projected_peak_serde_blob_heavy_not_under_projected() {
    let store_size = 4 * SINGLE_TXN_STORE_FLOOR_BYTES; // 4 GiB
    let copy_through = store_size / 1000; // near-zero copy-through
    let footprint = RedbStorage::re_encodable_footprint(store_size, copy_through);
    let margined = RedbStorage::projected_peak_with_margin(footprint);
    assert!(
        margined >= RedbStorage::projected_peak_rss(footprint),
        "serde-blob-heavy peak must keep the safety margin (never under-projected)"
    );
    assert!(
        margined > footprint / 10,
        "margined peak must exceed the bare 0.10× footprint (conservative sizing)"
    );
    let cfg = default_config();
    let err = RedbStorage::resolve_codec_txn_shape(store_size, copy_through, &cfg).unwrap_err();
    match err {
        PulseDBError::Storage(StorageError::SubstrateMigrationTooLarge {
            projected_peak,
            ..
        }) => {
            assert_eq!(
                projected_peak, margined,
                "the surfaced peak must be the margined (conservative) peak"
            );
        }
        other => panic!("re-encodable-dominated store must fail closed, got: {other:?}"),
    }
    let mut cfg_small = default_config();
    cfg_small.migration_available_memory_bytes = Some(margined); // peak !< peak/2
    assert!(
        RedbStorage::resolve_codec_txn_shape(store_size, copy_through, &cfg_small).is_err(),
        "a budget below 2× the margined peak must still fail closed"
    );
}

#[test]
fn test_codec_leg_headroom_excludes_backup_cost() {
    let cfg = default_config();
    let store_size: u64 = 100_000; // well below the single-txn floor (memory axis Ok)
    let backup_required = RedbStorage::required_migration_disk_bytes(store_size); // ~2.1×
    let no_backup_required = store_size + store_size / 10; // ~1.1×, matches the codec-leg branch
    assert!(
        no_backup_required < backup_required,
        "the no-backup requirement must be strictly smaller"
    );
    let available = (no_backup_required + backup_required) / 2; // between the two thresholds
    assert!(
        RedbStorage::resolve_migration_headroom(store_size, 0, available, &cfg, true).is_err(),
        "backup path must fail with only backup-excluding disk free"
    );
    assert!(
        RedbStorage::resolve_migration_headroom(store_size, 0, available, &cfg, false).is_ok(),
        "codec-only leg must not be charged for a backup it never writes"
    );
}

fn schema_audit_tables() -> Vec<(&'static str, bool)> {
    vec![
        ("metadata", true),
        ("collectives", true),
        ("decay_configs", true),
        ("experiences", true),
        ("relations", true),
        ("insights", true),
        ("activities", true),
        ("watch_events", true),
        ("embeddings", false),
        ("experiences_by_collective", false),
        ("experiences_by_type", false),
        ("relations_by_source", false),
        ("relations_by_target", false),
        ("insights_by_collective", false),
        ("sync_cursors", true),
    ]
}

fn audit_serde_blob_coverage(tables: &[(&str, bool)]) -> Result<(), String> {
    for (name, is_serde_blob) in tables {
        if *is_serde_blob {
            let registered = serde_blob_tables().iter().any(|(table, _)| table.name() == *name);
            if !registered {
                return Err((*name).to_string());
            }
        }
    }
    Ok(())
}

#[test]
fn every_schema_serde_blob_table_is_in_reencode_registry() {
    let tables = schema_audit_tables();
    assert_eq!(tables.len(), 15);
    audit_serde_blob_coverage(&tables).expect("every serialized table is registered");
    let audit_serde_blob: Vec<&str> =
        tables.iter().filter(|(_, blob)| *blob).map(|(name, _)| *name).collect();
    for (table, _) in serde_blob_tables().iter() {
        assert!(audit_serde_blob.contains(&table.name()), "{} is unknown", table.name());
    }
}

#[test]
fn audit_rejects_fake_unregistered_serde_blob_table() {
    let fake_serde_blob = ("definitely_not_a_real_table", true);
    let result = audit_serde_blob_coverage(&[fake_serde_blob]);
    assert!(result.is_err());
    assert_eq!(result.unwrap_err(), "definitely_not_a_real_table");
}

#[test]
#[should_panic(expected = "fake serde-blob table")]
fn audit_of_fake_table_panics_when_unwrapped() {
    let fake_serde_blob = ("phantom_table_audit_fake", true);
    audit_serde_blob_coverage(&[fake_serde_blob]).expect("fake serde-blob table must be rejected");
}

#[test]
fn copied_through_tables_are_never_decoded() {
    let raw = [
        Table::Embeddings,
        Table::ExperiencesByCollective,
        Table::ExperiencesByType,
        Table::RelationsBySource,
        Table::RelationsByTarget,
        Table::InsightsByCollective,
    ];
    for table in raw.iter() {
        assert!(!table.is_serde_blob());
        assert!(!serde_blob_tables().iter().any(|(t, _)| t == table));
    }
    assert_eq!(serde_blob_tables()[7].1, "watch_event");
}

#[test]
fn a_missing_marker_is_not_a_broken_one() {
    assert_eq!(read_substrate_marker(&None).unwrap(), SubstrateFormat::Absent);
    let current = encode_substrate_marker(CURRENT_SUBSTRATE_FORMAT).to_vec();
    assert_eq!(read_substrate_marker(&Some(current)).unwrap(), SubstrateFormat::Current);
    assert!(read_substrate_marker(&Some(vec![b'P', b'S'])).is_err());
}

#[test]
fn peak_memory_has_exact_values() {
    assert_eq!(RedbStorage::projected_peak_rss(1_000), 100);
    assert_eq!(RedbStorage::projected_peak_with_margin(1_000), 150);
    assert_eq!(RedbStorage::projected_peak_with_margin(1_010), 152);
    assert_eq!(RedbStorage::required_migration_disk_bytes(1_000), 2_100);
    assert_eq!(RedbStorage::single_txn_floor_bytes(), 1 << 30);
}
