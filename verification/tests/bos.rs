use lance_support::bos::{
    convert_to_s3_endpoint, extract_region, normalize_s3_env_var, BosStore, BosStoreProvider,
};
use lance_support::error::StoreError;
use lance_support::store::ObjectStoreParams;
use lance_support::string_map::StringMap;
use lance_support::uri::StoreUrl;

#[test]
fn test_convert_to_s3_endpoint() {
    assert_eq!(
        Some("https://s3.cn-north-1.bcebos.com".to_string()),
        convert_to_s3_endpoint("https://cn-north-1.bcebos.com")
    );
    assert_eq!(
        Some("http://s3.cn-north-1.bcebos.com".to_string()),
        convert_to_s3_endpoint("http://cn-north-1.bcebos.com")
    );
    assert_eq!(None, convert_to_s3_endpoint("ftp://cn-north-1.bcebos.com"));
}

#[test]
fn test_extract_region() {
    assert_eq!(
        Some("cn-north-1".to_string()),
        extract_region("https://cn-north-1.bcebos.com")
    );
    assert_eq!(None, extract_region("https://example.com"));
}

#[test]
fn test_normalize_s3_env_var() {
    assert_eq!(
        Some("access_key_id".to_string()),
        normalize_s3_env_var("BOS_ACCESS_KEY_ID")
    );
    assert_eq!(
        Some("region".to_string()),
        normalize_s3_env_var("AWS_REGION")
    );
    assert_eq!(None, normalize_s3_env_var("OTHER_KEY"));
}

fn pairs(entries: &[(&str, &str)]) -> Vec<(String, String)> {
    entries
        .iter()
        .map(|(k, v)| (k.to_string(), v.to_string()))
        .collect()
}

fn new_store(
    url: &str,
    options: &[(&str, &str)],
    env: &[(&str, &str)],
) -> Result<BosStore, StoreError> {
    let params = ObjectStoreParams {
        storage_options: Some(StringMap::from_pairs(&pairs(options))),
        ..Default::default()
    };
    BosStoreProvider.new_store(&StoreUrl::parse(url).unwrap(), &params, &pairs(env))
}

const ENDPOINT: (&str, &str) = ("fs.bos.endpoint", "https://bj.bcebos.com");

#[test]
fn endpoints_without_a_region_have_none() {
    assert_eq!(None, extract_region("https://.bcebos.com"));
    assert_eq!(None, extract_region("https://a.b.bcebos.com"));
    assert_eq!(None, extract_region("bj.bcebos.com"));
    assert_eq!(None, extract_region("https://bj.bcebos.co"));
    assert_eq!(None, extract_region("httpss://bj.bcebos.com"));
    assert_eq!(None, extract_region(""));
}

#[test]
fn the_first_place_with_a_region_counts() {
    let region = |text: &str| extract_region(text);
    assert_eq!(Some("gz".to_string()), region("http://gz.bcebos.com:8443/x"));
    assert_eq!(
        Some("b".to_string()),
        region("http://a.example.com http://b.bcebos.com https://c.bcebos.com")
    );
    assert_eq!(
        Some("b".to_string()),
        region("xhttps://b.bcebos.com")
    );
    assert_eq!(
        Some("http://b".to_string()),
        region("https://http://b.bcebos.com")
    );
    assert_eq!(
        Some("a\n\u{e9}".to_string()),
        region("https://a\n\u{e9}.bcebos.com")
    );
}

#[test]
fn endpoints_are_converted_by_their_scheme_alone() {
    assert_eq!(
        Some("https://s3.".to_string()),
        convert_to_s3_endpoint("https://")
    );
    assert_eq!(None, convert_to_s3_endpoint("HTTPS://a"));
    assert_eq!(None, convert_to_s3_endpoint("http:/"));
}

#[test]
fn variables_are_normalized_in_any_case() {
    let name = |key: &str| normalize_s3_env_var(key);
    assert_eq!(Some("endpoint".to_string()), name("bos_Endpoint"));
    assert_eq!(Some("aws_x".to_string()), name("BOS_AWS_X"));
    assert_eq!(Some("\u{e9}".to_string()), name("BOS_\u{c9}"));
    assert_eq!(Some("".to_string()), name("AWS_"));
    assert_eq!(None, name("BOS"));
}

#[test]
fn bos_options_override_the_environment() {
    let store = new_store(
        "bos://my-bucket/data",
        &[
            ENDPOINT,
            ("fs.bos.access.key", "ak"),
            ("fs.bos.secret.access.key", "sk"),
            ("fs.bos.session.token.key", "tok"),
            ("other", "ignored"),
        ],
        &[
            ("BOS_BUCKET", "other-bucket"),
            ("BOS_ENDPOINT", "https://env"),
            ("AWS_REGION", "env-region"),
            ("AWS_ACCESS_KEY_ID", "env-ak"),
            ("BOS_SECRET_ACCESS_KEY", "env-sk"),
            ("AWS_SESSION_TOKEN", "env-tok"),
            ("BOS_ROLE", "env-role"),
            ("HOME", "/root"),
        ],
    )
    .unwrap();
    let get = |key: &str| store.config.get(key).map(|v| v.as_str());
    assert_eq!(get("bucket"), Some("my-bucket"));
    assert_eq!(get("endpoint"), Some("https://s3.bj.bcebos.com"));
    assert_eq!(get("region"), Some("bj"));
    assert_eq!(get("access_key_id"), Some("ak"));
    assert_eq!(get("secret_access_key"), Some("sk"));
    assert_eq!(get("session_token"), Some("tok"));
    assert_eq!(get("role"), Some("env-role"));
    assert_eq!(store.config.entries().len(), 7);
}

#[test]
fn the_environment_fills_the_rest() {
    let store = new_store(
        "bos://b",
        &[],
        &[
            ("BOS_ENDPOINT", "https://anything"),
            ("AWS_REGION", "r1"),
            ("BOS_REGION", "r2"),
        ],
    )
    .unwrap();
    let get = |key: &str| store.config.get(key).map(|v| v.as_str());
    assert_eq!(get("endpoint"), Some("https://anything"));
    assert_eq!(get("region"), Some("r2"));
    assert!(!store.config.contains_key("access_key_id"));
}

#[test]
fn the_host_names_the_bucket() {
    let bucket = |url: &str| BosStoreProvider.bucket(StoreUrl::parse(url).unwrap().parts());
    assert_eq!(bucket("bos://my-bucket/a").unwrap(), "my-bucket");
    assert_eq!(bucket("bos://user@b:80").unwrap(), "b");
    for url in ["bos:///path", "bos:path", "bos:/no/host"] {
        assert_eq!(bucket(url).unwrap_err().message(), "BOS URL must contain bucket name");
    }
}

#[test]
fn unusable_input_is_refused() {
    let refusal = |url: &str, options: &[(&str, &str)]| new_store(url, options, &[]).unwrap_err().message();
    assert_eq!(
        refusal("bos:/no/host", &[ENDPOINT]),
        "BOS URL must contain bucket name"
    );
    assert_eq!(
        refusal("bos://b", &[("fs.bos.endpoint", "bj.bcebos.com")]),
        "Invalid BOS endpoint format: 'bj.bcebos.com', expected 'http(s)://...'"
    );
    assert_eq!(
        refusal("bos://b", &[("fs.bos.endpoint", "https://example.com")]),
        "Cannot extract region from BOS endpoint: 'https://example.com', expected 'http(s)://<region>.bcebos.com'"
    );
    assert_eq!(
        refusal("bos://b", &[("fs.bos.access.key", "ak")]),
        "BOS endpoint is required. Please provide 'fs.bos.endpoint' in storage options or set BOS_ENDPOINT environment variable"
    );
    assert_eq!(
        BosStoreProvider::operator_error("why").message(),
        "Failed to create BOS(S3) operator: why"
    );
}

#[test]
fn settings_have_the_cloud_defaults() {
    let store = new_store("bos://b/p", &[ENDPOINT], &[]).unwrap();
    assert_eq!(store.settings.scheme, "bos");
    assert_eq!(store.settings.block_size, 64 * 1024);
    assert!(store.settings.list_is_lexically_ordered);
    assert!(!store.settings.use_constant_size_upload_parts);
    assert_eq!(store.settings.io_parallelism, 64);
    assert_eq!(store.settings.store_prefix, "bos$b");
    assert_eq!(
        store.settings.storage_options.get("fs.bos.endpoint"),
        Some(&"https://bj.bcebos.com".to_string())
    );
}
