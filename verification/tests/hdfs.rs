use lance_support::hdfs::{hadoop_env_key, AccessorReply, HdfsStore, HdfsStoreProvider};
use lance_support::store::{ObjectStoreParams, ObjectStoreProvider};
use lance_support::string_map::StringMap;
use lance_support::uri::StoreUrl;

fn map(entries: &[(&str, &str)]) -> StringMap {
    StringMap::from_pairs(&pairs(entries))
}

fn pairs(entries: &[(&str, &str)]) -> Vec<(String, String)> {
    entries
        .iter()
        .map(|(k, v)| (k.to_string(), v.to_string()))
        .collect()
}

fn params(options: &[(&str, &str)]) -> ObjectStoreParams {
    ObjectStoreParams {
        storage_options: Some(map(options)),
        ..Default::default()
    }
}

fn open(
    url: &str,
    params: &ObjectStoreParams,
    reply: AccessorReply,
    env: &[(&str, &str)],
) -> HdfsStore {
    HdfsStoreProvider
        .new_store(&StoreUrl::parse(url).unwrap(), params, reply, &pairs(env))
        .unwrap()
}

#[test]
fn test_hdfs_store_prefix() {
    let provider = HdfsStoreProvider;
    let url = StoreUrl::parse("hdfs://mycluster/some/path/").unwrap();
    let prefix = provider
        .calculate_object_store_prefix(url.parts(), None)
        .unwrap();
    assert_eq!(prefix, "hdfs$mycluster");
}

#[test]
fn test_hdfs_new_store_rejects_missing_authority() {
    let provider = HdfsStoreProvider;
    let url = StoreUrl::parse("hdfs:///path/to/file").unwrap();
    let err = provider
        .new_store(
            &url,
            &ObjectStoreParams::default(),
            AccessorReply::Absent,
            &vec![],
        )
        .expect_err("hdfs:/// must be rejected");
    assert!(
        err.message().contains("nameservice authority"),
        "unexpected error: {:?}",
        err
    );
    assert_eq!(
        err.message(),
        "HDFS URL must include a nameservice authority, got 'hdfs:///path/to/file'"
    );
    assert!(provider.check_authority(url.parts()).is_err());
}

#[test]
fn urls_without_any_host_are_rejected() {
    let url = StoreUrl::parse("hdfs:path").unwrap();
    assert!(HdfsStoreProvider.check_authority(url.parts()).is_err());
    let url = StoreUrl::parse("hdfs://nn1:8020/x").unwrap();
    assert!(HdfsStoreProvider.check_authority(url.parts()).is_ok());
}

#[test]
fn environment_variables_become_hadoop_keys() {
    assert_eq!(
        hadoop_env_key("HDFS_DFS_NAMESERVICES"),
        Some("dfs.nameservices".to_string())
    );
    assert_eq!(
        hadoop_env_key("HDFS_fs_A__b"),
        Some("fs.a..b".to_string())
    );
    assert_eq!(hadoop_env_key("HDFS_"), Some("".to_string()));
    assert_eq!(
        hadoop_env_key("HDFS_\u{c9}_\u{3a3}"),
        Some("\u{e9}.\u{3c3}".to_string())
    );
    assert_eq!(hadoop_env_key("hdfs_DFS_X"), None);
    assert_eq!(hadoop_env_key("HDFS"), None);
    assert_eq!(hadoop_env_key("XHDFS_A"), None);
}

#[test]
fn options_override_the_environment() {
    let params = params(&[
        ("dfs.nameservices", "from-options"),
        ("fs.defaultFS", "hdfs://a"),
        ("hadoop.user", "me"),
        ("aws_region", "ignored"),
        ("xfs.a", "ignored"),
    ]);
    let env = [
        ("HDFS_DFS_NAMESERVICES", "from-env"),
        ("HDFS_AWS_REGION", "env-region"),
        ("PATH", "/bin"),
    ];
    let store = open("hdfs://mycluster/p", &params, AccessorReply::Absent, &env);
    let expected = pairs(&[
        ("dfs.nameservices", "from-options"),
        ("aws.region", "env-region"),
        ("fs.defaultFS", "hdfs://a"),
        ("hadoop.user", "me"),
    ]);
    assert_eq!(store.config.entries(), &expected);
    assert_eq!(
        store.config_keys,
        "dfs.nameservices, aws.region, fs.defaultFS, hadoop.user"
    );
}

#[test]
fn the_last_of_equal_environment_keys_wins() {
    let env = [("HDFS_A_B", "1"), ("HDFS_a_b", "2")];
    let store = open(
        "hdfs://c/",
        &ObjectStoreParams::default(),
        AccessorReply::Absent,
        &env,
    );
    assert_eq!(store.config.entries(), &pairs(&[("a.b", "2")]));
    assert_eq!(store.config_keys, "a.b");
}

#[test]
fn fetched_options_come_before_static_ones() {
    let params = params(&[("fs.a", "static")]);
    let fetched = AccessorReply::Fetched(map(&[("fs.a", "fetched")]));
    let store = open("hdfs://c/", &params, fetched, &[]);
    assert_eq!(store.config.get("fs.a"), Some(&"fetched".to_string()));
    assert_eq!(
        store.settings.storage_options.get("fs.a"),
        Some(&"fetched".to_string())
    );
    for reply in [AccessorReply::Absent, AccessorReply::Failed] {
        let store = open("hdfs://c/", &params, reply, &[]);
        assert_eq!(store.config.get("fs.a"), Some(&"static".to_string()));
    }
}

#[test]
fn the_builder_url_drops_the_path() {
    let cases = [
        ("hdfs://mycluster/path/to/file", "hdfs://mycluster"),
        ("hdfs://mycluster", "hdfs://mycluster"),
        ("hdfs://user@nn1:8020/a/", "hdfs://user@nn1:8020"),
        ("hdfs://c/p?q=1#f", "hdfs://c?q=1#f"),
    ];
    for (url, expected) in cases {
        let store = open(
            url,
            &ObjectStoreParams::default(),
            AccessorReply::Absent,
            &[],
        );
        assert_eq!(store.builder_url, expected);
    }
}

#[test]
fn the_path_does_not_reach_the_client() {
    let params = params(&[("fs.a", "1"), ("block", "2")]);
    let env = [("HDFS_DFS_B", "3")];
    let cases = [
        ("hdfs://nn:8020", "hdfs://nn:8020/a/b", "hdfs://nn:8020", "hdfs$nn:8020"),
        ("hdfs://nn/a", "hdfs://nn/a/", "hdfs://nn", "hdfs$nn"),
        ("http://host", "http://host/a/b", "http://host/", "http$host"),
        ("file://host/a", "file://host/b/", "file://host/", "file$host"),
    ];
    for (first, second, builder_url, prefix) in cases {
        let a = open(first, &params, AccessorReply::Absent, &env);
        let b = open(second, &params, AccessorReply::Absent, &env);
        assert_eq!(a.builder_url, builder_url);
        assert_eq!(b.builder_url, builder_url);
        let config = pairs(&[("dfs.b", "3"), ("fs.a", "1")]);
        assert_eq!(a.config.entries(), &config);
        assert_eq!(b.config.entries(), &config);
        assert_eq!(a.settings.store_prefix, prefix);
        assert_eq!(b.settings.store_prefix, prefix);
        assert_eq!(a.settings.block_size, b.settings.block_size);
        assert_eq!(a.settings.scheme, b.settings.scheme);
    }
}

#[test]
fn settings_follow_from_the_parameters() {
    let store = open(
        "hdfs://user@nn1:8020/a",
        &ObjectStoreParams::default(),
        AccessorReply::Absent,
        &[],
    );
    assert_eq!(store.settings.scheme, "hdfs");
    assert_eq!(store.settings.block_size, 1024 * 1024);
    assert!(!store.settings.use_constant_size_upload_parts);
    assert!(!store.settings.list_is_lexically_ordered);
    assert_eq!(store.settings.io_parallelism, 16);
    assert_eq!(store.settings.store_prefix, "hdfs$user@nn1:8020");
    let chosen = ObjectStoreParams {
        block_size: Some(7),
        storage_options: None,
        use_constant_size_upload_parts: true,
        list_is_lexically_ordered: Some(true),
    };
    let store = open("hdfs://c/a", &chosen, AccessorReply::Absent, &[]);
    assert_eq!(store.settings.block_size, 7);
    assert!(store.settings.use_constant_size_upload_parts);
    assert!(store.settings.list_is_lexically_ordered);
}

#[test]
fn messages_quote_url_and_keys() {
    let env = [("HDFS_A", "1"), ("HDFS_B", "2")];
    let store = open(
        "hdfs://c/x",
        &ObjectStoreParams::default(),
        AccessorReply::Absent,
        &env,
    );
    assert_eq!(
        store.announcement(),
        "Creating HDFS store url=hdfs://c keys=[a, b]"
    );
    assert_eq!(
        store.build_error("Oops").message(),
        "Failed to create HDFS store for 'hdfs://c': Oops. Keys=[a, b]. Ensure HA config (dfs.ha.namenodes.*, dfs.namenode.rpc-address.*) is set via storage_options or HADOOP_CONF_DIR."
    );
}
