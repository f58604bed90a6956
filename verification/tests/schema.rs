//! Keys, tags and metadata.

use pulsedb::storage::schema::{
    collective_range_end, collective_range_start, decode_agent_id_from_activity_key,
    decode_collective_from_activity_key, decode_collective_from_type_key, decode_timestamp_from_key,
    decode_type_tag_from_key, encode_activity_key, encode_collective_timestamp_key,
    encode_type_index_key, DatabaseMetadata, EntityTypeTag, ExperienceTypeTag, WatchEventTypeTag,
    SCHEMA_VERSION,
};
use pulsedb::types::{EmbeddingDimension, Timestamp};

#[test]
fn test_schema_version() {
    assert_eq!(SCHEMA_VERSION, 2);
}

#[test]
fn test_database_metadata_new() {
    let meta = DatabaseMetadata::new(EmbeddingDimension::D384);
    assert_eq!(meta.schema_version, SCHEMA_VERSION);
    assert_eq!(meta.embedding_dimension, EmbeddingDimension::D384);
    assert!(meta.is_compatible());
}

#[test]
fn test_encode_collective_timestamp_key() {
    let collective_id = [1u8; 16];
    let timestamp = Timestamp::from_millis(1234567890);

    let key = encode_collective_timestamp_key(&collective_id, timestamp);

    assert_eq!(&key[..16], &collective_id);
    assert_eq!(decode_timestamp_from_key(&key), timestamp);
}

#[test]
fn test_key_ordering() {
    let collective_id = [1u8; 16];
    let t1 = Timestamp::from_millis(1000);
    let t2 = Timestamp::from_millis(2000);

    let key1 = encode_collective_timestamp_key(&collective_id, t1);
    let key2 = encode_collective_timestamp_key(&collective_id, t2);

    // Lexicographic ordering should match timestamp ordering
    assert!(key1 < key2);
}

#[test]
fn test_collective_range() {
    let collective_id = [42u8; 16];
    let start = collective_range_start(&collective_id);
    let end = collective_range_end(&collective_id);

    // Any timestamp should fall within this range
    let mid = encode_collective_timestamp_key(&collective_id, Timestamp::now());
    assert!(start <= mid);
    assert!(mid <= end);
}

// ExperienceTypeTag tests

#[test]
fn test_experience_type_tag_from_u8_roundtrip() {
    for tag in ExperienceTypeTag::all().iter() {
        let byte = tag.to_u8();
        let restored = ExperienceTypeTag::from_u8(byte).unwrap();
        assert_eq!(*tag, restored);
    }
}

#[test]
fn test_experience_type_tag_from_u8_invalid() {
    assert!(ExperienceTypeTag::from_u8(255).is_none());
    assert!(ExperienceTypeTag::from_u8(9).is_none());
}

#[test]
fn test_experience_type_tag_all_variants() {
    let all = ExperienceTypeTag::all();
    assert_eq!(all.len(), 9);
    assert_eq!(all[0], ExperienceTypeTag::Difficulty);
    assert_eq!(all[5], ExperienceTypeTag::ArchitecturalDecision);
    assert_eq!(all[8], ExperienceTypeTag::Generic);
}

// Type index key encoding tests

#[test]
fn test_encode_type_index_key_roundtrip() {
    let collective_id = [7u8; 16];
    let tag = ExperienceTypeTag::SuccessPattern;

    let key = encode_type_index_key(&collective_id, tag);

    assert_eq!(decode_collective_from_type_key(&key), collective_id);
    assert_eq!(decode_type_tag_from_key(&key), Some(tag));
}

#[test]
fn test_type_index_key_different_types_produce_different_keys() {
    let collective_id = [1u8; 16];

    let key_obs = encode_type_index_key(&collective_id, ExperienceTypeTag::Difficulty);
    let key_les = encode_type_index_key(&collective_id, ExperienceTypeTag::SuccessPattern);

    assert_ne!(key_obs, key_les);
    // Same collective prefix
    assert_eq!(&key_obs[..16], &key_les[..16]);
    // Different type byte
    assert_ne!(key_obs[16], key_les[16]);
}

#[test]
fn test_type_index_key_different_collectives_produce_different_keys() {
    let id_a = [1u8; 16];
    let id_b = [2u8; 16];
    let tag = ExperienceTypeTag::Solution;

    let key_a = encode_type_index_key(&id_a, tag);
    let key_b = encode_type_index_key(&id_b, tag);

    assert_ne!(key_a, key_b);
    // Same type byte
    assert_eq!(key_a[16], key_b[16]);
}

// Activity key encoding tests (E3-S03)

#[test]
fn test_activity_key_encode_decode_roundtrip() {
    let collective_id = [42u8; 16];
    let agent_id = "agent-opus";

    let key = encode_activity_key(&collective_id, agent_id);

    assert_eq!(decode_collective_from_activity_key(&key), collective_id);
    assert_eq!(decode_agent_id_from_activity_key(&key), agent_id);
}

#[test]
fn test_activity_key_different_agents_produce_different_keys() {
    let collective_id = [1u8; 16];

    let key_a = encode_activity_key(&collective_id, "agent-alpha");
    let key_b = encode_activity_key(&collective_id, "agent-beta");

    assert_ne!(key_a, key_b);
    // Same collective prefix
    assert_eq!(&key_a[..16], &key_b[..16]);
}

#[test]
fn test_activity_key_different_collectives_produce_different_keys() {
    let id_a = [1u8; 16];
    let id_b = [2u8; 16];

    let key_a = encode_activity_key(&id_a, "same-agent");
    let key_b = encode_activity_key(&id_b, "same-agent");

    assert_ne!(key_a, key_b);
    // Same agent_id suffix
    assert_eq!(
        decode_agent_id_from_activity_key(&key_a),
        decode_agent_id_from_activity_key(&key_b)
    );
}

#[test]
fn test_activity_key_format() {
    let collective_id = [0xAB; 16];
    let agent_id = "hi";

    let key = encode_activity_key(&collective_id, agent_id);

    // 16 (collective) + 2 (len) + 2 (agent "hi") = 20 bytes
    assert_eq!(key.len(), 20);
    // Collective prefix
    assert_eq!(&key[..16], &[0xAB; 16]);
    // Length field (big-endian u16 = 2)
    assert_eq!(&key[16..18], &[0, 2]);
    // Agent ID bytes
    assert_eq!(&key[18..], b"hi");
}

#[test]
fn touching_metadata_moves_only_the_opening_time() {
    let mut meta = DatabaseMetadata::new_at(EmbeddingDimension::D768, Timestamp::from_millis(10));
    meta.touch_at(Timestamp::from_millis(25));
    assert_eq!(meta.created_at, Timestamp::from_millis(10));
    assert_eq!(meta.last_opened_at, Timestamp::from_millis(25));
    assert_eq!(meta.embedding_dimension, EmbeddingDimension::D768);
    meta.touch();
    assert!(meta.last_opened_at > Timestamp::from_millis(1_600_000_000_000));
}

#[test]
fn every_tag_byte_is_read_back() {
    for byte in 0..=255u8 {
        if let Some(tag) = EntityTypeTag::from_u8(byte) {
            assert_eq!(tag.to_u8(), byte);
        } else {
            assert!(byte > 3);
        }
        if let Some(tag) = WatchEventTypeTag::from_u8(byte) {
            assert_eq!(tag.to_u8(), byte);
        } else {
            assert!(byte > 3);
        }
    }
    assert_eq!(EntityTypeTag::default(), EntityTypeTag::Experience);
}

#[test]
fn moments_before_the_epoch_sort_behind_the_later_ones_in_keys() {
    let id = [3u8; 16];
    let before = encode_collective_timestamp_key(&id, Timestamp::from_millis(-1));
    let after = encode_collective_timestamp_key(&id, Timestamp::from_millis(1));
    assert!(after < before);
    assert_eq!(decode_timestamp_from_key(&before), Timestamp::from_millis(-1));
}

#[test]
fn agent_names_beyond_ascii_come_back() {
    let key = encode_activity_key(&[9u8; 16], "agent-\u{fc}\u{4e16}");
    assert_eq!(key.len(), 16 + 2 + 6 + 2 + 3);
    assert_eq!(decode_agent_id_from_activity_key(&key), "agent-\u{fc}\u{4e16}");
}
