use lance_support::error::StoreError;
use lance_support::string_map::StringMap;
use lance_support::uri::StoreUrl;

#[test]
fn urls_are_taken_apart() {
    let url = StoreUrl::parse("HDFS://user@NN1:8020/a%20b/c?q#f").unwrap();
    let parts = url.parts();
    assert_eq!(parts.serialization, "hdfs://user@NN1:8020/a%20b/c?q#f");
    assert_eq!(parts.scheme, "hdfs");
    assert_eq!(parts.authority, "user@NN1:8020");
    assert_eq!(parts.host, Some("NN1".to_string()));
    assert_eq!(parts.path, "/a%20b/c");
    assert!(url.fits_as_directory());
}

#[test]
fn texts_that_are_no_urls_are_refused() {
    for text in ["", "no scheme", "//host/path", "http://"] {
        let err = StoreUrl::parse(text).unwrap_err();
        assert!(matches!(err, StoreError::InvalidUrl));
        assert_eq!(err.message(), "not an absolute URL");
    }
}

#[test]
fn a_path_is_replaced_and_nothing_else() {
    let url = StoreUrl::parse("bos://bucket/a?q#f").unwrap();
    let parts = url.with_path("x y/");
    assert_eq!(parts.serialization, "bos://bucket/x%20y/?q#f");
    assert_eq!(parts.path, "/x%20y/");
    assert_eq!(parts.authority, "bucket");
    assert_eq!(url.with_path("").serialization, "bos://bucket?q#f");
}

#[test]
fn an_empty_path_becomes_the_root_of_a_special_scheme() {
    let cases = [
        ("hdfs://host/a", ""),
        ("http://host/a/b", "/"),
        ("https://host", "/"),
        ("file://host/a", "/"),
    ];
    for (text, expected) in cases {
        assert_eq!(StoreUrl::parse(text).unwrap().with_path("").path, expected);
    }
}

#[test]
fn a_slash_at_the_end_stays_behind_one_at_the_start() {
    let url = StoreUrl::parse("bos://bucket/a").unwrap();
    assert_eq!(url.with_path("?/").path, "");
    assert_eq!(url.with_path("#/").serialization, "bos://bucket");
    assert_eq!(url.with_path("/?/").path, "/%3F/");
    assert_eq!(url.with_path("/a/../").path, "/");
}

#[test]
fn paths_behind_a_host_start_with_a_slash() {
    for text in ["bos://b/..", "bos://b/a", "http://h", "file://h/x", "bos://b//x/../.."] {
        let url = StoreUrl::parse(text).unwrap();
        assert!(url.parts().host.is_some());
        assert!(url.parts().path.starts_with('/'));
    }
    assert_eq!(StoreUrl::parse("bos://b?q").unwrap().parts().path, "");
    assert_eq!(StoreUrl::parse("bos://b#f").unwrap().as_directory().path, "/");
}

#[test]
fn directories_end_in_a_slash() {
    let cases = [
        ("bos://bucket", "bos://bucket/"),
        ("bos://bucket/a", "bos://bucket/a/"),
        ("bos://bucket/a/", "bos://bucket/a/"),
        ("https://host/a/..", "https://host/"),
        ("file://host/c", "file://host/c/"),
    ];
    for (text, expected) in cases {
        let parts = StoreUrl::parse(text).unwrap().as_directory();
        assert_eq!(parts.serialization, expected);
        assert!(parts.path.ends_with('/'));
    }
}

#[test]
fn maps_keep_one_value_per_key() {
    let mut map = StringMap::new();
    map.insert("a".to_string(), "1".to_string());
    map.insert("b".to_string(), "2".to_string());
    map.insert("a".to_string(), "3".to_string());
    assert_eq!(map.get("a"), Some(&"3".to_string()));
    assert_eq!(map.get("c"), None);
    assert!(map.contains_key("b"));
    assert!(!map.contains_key(""));
    let expected = vec![
        ("a".to_string(), "3".to_string()),
        ("b".to_string(), "2".to_string()),
    ];
    assert_eq!(map.entries(), &expected);
    assert_eq!(map.clone().entries(), &expected);
}
