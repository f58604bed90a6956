//! Identifiers, moments, texts and counters.

use std::collections::BTreeMap;

use pulsedb::bytes::{from_be, to_be};
use pulsedb::gcounter::{bump, merge, sum};
use pulsedb::error::StorageError;
use pulsedb::storage::listing::{read_row, read_rows};
use pulsedb::storage::schema::DatabaseMetadata;
use pulsedb::text::{decimal_text, hex_text, join};
use pulsedb::types::{CollectiveId, EmbeddingDimension, ExperienceId, InstanceId, Timestamp};

#[test]
fn identifiers_print_in_groups() {
    let mut bytes = [0u8; 16];
    for (i, b) in bytes.iter_mut().enumerate() {
        *b = (i * 16 + i) as u8;
    }
    let id = InstanceId::from_bytes(bytes);
    assert_eq!(id.to_string(), "00112233-4455-6677-8899-aabbccddeeff");
    assert_eq!(id.as_bytes(), bytes);
    assert_eq!(CollectiveId::nil().to_string(), "00000000-0000-0000-0000-000000000000");
    assert_eq!(ExperienceId::from_bytes([0xff; 16]).as_bytes(), [0xff; 16]);
}

#[test]
fn moments_keep_their_bytes() {
    for millis in [0i64, 1, -1, i64::MAX, i64::MIN, 1_700_000_000_000] {
        let t = Timestamp::from_millis(millis);
        assert_eq!(t.as_millis(), millis);
        assert_eq!(t.to_be_bytes(), millis.to_be_bytes());
        assert_eq!(Timestamp::from_be_bytes(t.to_be_bytes()), t);
    }
    let a = Timestamp::from_millis(3);
    let b = Timestamp::from_millis(5);
    assert_eq!(a.max(b), b);
    assert_eq!(b.max(a), b);
}

#[test]
fn the_clock_runs() {
    let first = Timestamp::now();
    let second = Timestamp::now();
    assert!(first.as_millis() > 1_600_000_000_000);
    assert!(second.as_millis() - first.as_millis() < 60_000);
}

#[test]
fn texts_are_exact() {
    for n in [0u64, 9, 10, 65_535, u64::MAX] {
        assert_eq!(decimal_text(n), n.to_string());
    }
    assert_eq!(hex_text(0xAB, 4), "00ab");
    assert_eq!(join("a", "b"), "ab");
}

#[test]
fn big_endian_bytes_are_exact() {
    let four: [u8; 4] = to_be::<4>(0x0102_0304);
    assert_eq!(four, [1, 2, 3, 4]);
    assert_eq!(from_be(&[1, 2, 3, 4]), 0x0102_0304);
    assert_eq!(from_be(&[]), 0);
    assert_eq!(to_be::<16>(u128::MAX), [0xff; 16]);
}

#[test]
fn dimensions_have_sizes() {
    assert_eq!(EmbeddingDimension::D384.size(), 384);
    assert_eq!(EmbeddingDimension::D768.size(), 768);
    assert_eq!(EmbeddingDimension::Custom(12).size(), 12);
}

fn counter(pairs: &[(u128, u32)]) -> BTreeMap<u128, u32> {
    pairs.iter().cloned().collect()
}

#[test]
fn counters_merge_the_same_whatever_the_order() {
    let a = counter(&[(1, 5), (2, 1)]);
    let b = counter(&[(2, 4), (3, 7)]);
    let mut ab = a.clone();
    merge(&mut ab, &b);
    let mut ba = b.clone();
    merge(&mut ba, &a);
    assert_eq!(ab, counter(&[(1, 5), (2, 4), (3, 7)]));
    assert_eq!(ab, ba);
    let once = ab.clone();
    merge(&mut ab, &b);
    assert_eq!(ab, once);
}

#[test]
fn counters_grow_by_one_and_saturate() {
    let mut c = counter(&[]);
    bump(&mut c, 9);
    bump(&mut c, 9);
    assert_eq!(c, counter(&[(9, 2)]));
    assert_eq!(sum(&c), 2);
    let mut full = counter(&[(1, u32::MAX), (2, 3)]);
    assert_eq!(sum(&full), u32::MAX);
    bump(&mut full, 1);
    assert_eq!(full[&1], u32::MAX);
}

#[test]
fn a_missing_row_is_no_record_and_an_undecodable_one_fails() {
    assert_eq!(read_row::<u8>(None).unwrap(), None);
    assert_eq!(read_row(Some(Ok(7u8))).unwrap(), Some(7));
    assert!(matches!(
        read_row::<u8>(Some(Err("short".to_string()))),
        Err(StorageError::Serialization(ref m)) if m == "short"
    ));
    assert_eq!(read_rows(vec![Ok(1u8), Ok(2)]).unwrap(), vec![1, 2]);
    assert!(matches!(
        read_rows::<u8>(vec![Ok(1), Err("a".to_string()), Err("b".to_string())]),
        Err(StorageError::Serialization(ref m)) if m == "a"
    ));
}

#[test]
fn the_clock_reads_at_or_after_the_epoch() {
    assert_eq!(Timestamp::from_clock(None).as_millis(), 0);
    assert_eq!(Timestamp::from_clock(Some(1_700_000_000_000)).as_millis(), 1_700_000_000_000);
    assert_eq!(Timestamp::from_clock(Some(i64::MAX as u128)).as_millis(), i64::MAX);
    assert_eq!(Timestamp::from_clock(Some(i64::MAX as u128 + 1)).as_millis(), i64::MAX);
    assert!(Timestamp::now().as_millis() > 1_500_000_000_000);
    let mut metadata =
        DatabaseMetadata::new_at(EmbeddingDimension::D384, Timestamp::from_millis(-5));
    metadata.touch();
    assert!(metadata.last_opened_at.as_millis() >= 0);
    assert_eq!(metadata.created_at, Timestamp::from_millis(-5));
}
