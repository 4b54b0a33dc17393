use lance_support::index_caches::{
    CacheCodec, CacheKey, CacheScope, FragReuseIndexKey, GlobalIndexCache, IndexMetadataKey,
    ScalarIndexDetailsKey, ZoneMapStatsKey,
};
use lance_support::uuid_text::Uuid;

#[test]
fn zonemap_stats_key_contains_uuid_and_namespace() {
    let key = ZoneMapStatsKey { uuid: "abcd-1234" };
    let s = key.key().into_owned();
    assert!(s.starts_with("zonemap_stats/"), "got: {}", s);
    assert!(s.contains("abcd-1234"), "got: {}", s);
}

#[test]
fn zonemap_stats_key_distinguishes_different_uuids() {
    let a = ZoneMapStatsKey { uuid: "u1" }.key().into_owned();
    let b = ZoneMapStatsKey { uuid: "u2" }.key().into_owned();
    assert_ne!(a, b);
}

#[test]
fn keys_have_their_texts() {
    assert_eq!(FragReuseIndexKey { uuid: "u" }.key(), "frag_reuse/u");
    assert_eq!(ScalarIndexDetailsKey { uuid: "u" }.key(), "type/u");
    assert_eq!(ZoneMapStatsKey { uuid: "" }.key(), "zonemap_stats/");
    for version in [0u64, 9, 10, 42, 1_000_000, u64::MAX] {
        assert_eq!(IndexMetadataKey { version }.key(), version.to_string());
    }
}

#[test]
fn keys_name_the_types_of_their_values() {
    assert_eq!(FragReuseIndexKey::value_type_name(), "FragReuseIndex");
    assert_eq!(IndexMetadataKey::value_type_name(), "Vec<IndexMetadata>");
    assert_eq!(ScalarIndexDetailsKey::value_type_name(), "ScalarIndexDetails");
    assert_eq!(ZoneMapStatsKey::value_type_name(), "ZoneMapStatsBatches");
    assert_eq!(IndexMetadataKey::codec(), Some(CacheCodec::IndexMetadata));
}

#[test]
fn kinds_of_keys_do_not_collide() {
    let texts = [
        FragReuseIndexKey { uuid: "7" }.key().into_owned(),
        IndexMetadataKey { version: 7 }.key().into_owned(),
        ScalarIndexDetailsKey { uuid: "7" }.key().into_owned(),
        ZoneMapStatsKey { uuid: "7" }.key().into_owned(),
    ];
    for i in 0..texts.len() {
        for j in 0..i {
            assert_ne!(texts[i], texts[j]);
        }
    }
}

fn global() -> GlobalIndexCache {
    GlobalIndexCache(CacheScope::whole())
}

#[test]
fn datasets_get_their_uri_as_prefix() {
    let a = global().for_dataset("s3://bucket/a");
    let b = global().for_dataset("s3://bucket/b");
    assert_eq!(a.prefixes(), &vec!["s3://bucket/a".to_string()]);
    assert_ne!(a.prefixes(), b.prefixes());
    assert!(global().clone().prefixes().is_empty());
}

#[test]
fn indices_get_their_uuids_as_prefix() {
    let fri = Uuid::from_u128(0x67e55044_10b1_426f_9247_bb680e5fe0c8);
    let dataset = global().for_dataset("memory://d");
    let plain = dataset.for_index("idx", None);
    let reused = dataset.for_index("idx", Some(&fri));
    assert_eq!(
        plain.prefixes(),
        &vec!["memory://d".to_string(), "idx".to_string()]
    );
    assert_eq!(
        reused.prefixes(),
        &vec![
            "memory://d".to_string(),
            "idx-67e55044-10b1-426f-9247-bb680e5fe0c8".to_string()
        ]
    );
}

#[test]
fn an_index_uuid_can_spell_out_the_prefix_of_another() {
    let fri = Uuid::from_u128(1);
    let dataset = global().for_dataset("memory://d");
    let spelled = dataset.for_index("idx-00000000-0000-0000-0000-000000000001", None);
    let reused = dataset.for_index("idx", Some(&fri));
    assert_eq!(spelled.prefixes(), reused.prefixes());
}

#[test]
fn uuids_are_written_as_the_uuid_crate_writes_them() {
    let values = [
        0u128,
        1,
        u128::MAX,
        0xa1a2a3a4_b1b2_c1c2_d1d2_d3d4d5d6d7d8,
        0x01234567_89ab_cdef_0123_456789abcdef,
    ];
    for value in values {
        let text = Uuid::from_u128(value).text();
        assert_eq!(text, uuid::Uuid::from_u128(value).hyphenated().to_string());
        assert_eq!(text.len(), 36);
    }
    assert_eq!(
        Uuid::from_u128(0xa1a2a3a4b1b2c1c2d1d2d3d4d5d6d7d8).text(),
        "a1a2a3a4-b1b2-c1c2-d1d2-d3d4d5d6d7d8"
    );
}
