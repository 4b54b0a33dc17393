//! Stores on Baidu Object Storage, which are reached through its S3 interface.

use vstd::prelude::*;

use crate::error::StoreError;
use crate::store::{
    store_prefix, ObjectStoreParams,
    ObjectStoreProvider, StoreSettings, DEFAULT_CLOUD_BLOCK_SIZE, DEFAULT_CLOUD_IO_PARALLELISM,
};
use crate::string_map::{collected, lemma_collected_push, pairs_of, Pair, StringMap};
use crate::text::{
    all_ascii, ascii_lowercase, concat, lemma_same_start, lemma_without_prefix, lowercase,
    lowercase_string, strip_prefix, view_opt, without_prefix,
};
use crate::uri::{directory_url, StoreUrl, UrlParts};

verus! {

/// BOS endpoints are `<region>.bcebos.com`, so the region is the first label of
/// the host.
pub const REGION_PATTERN: &'static str = r"https?://([^.]+)\.bcebos\.com";

/// At position `at` of `text` stands `http://` or `https://`, then `region`, then
/// `.bcebos.com`.
pub open spec fn region_at(text: Seq<char>, at: int, region: Seq<char>) -> bool {
    &&& 0 <= at <= text.len()
    &&& region.len() > 0
    &&& !region.contains('.')
    &&& {
        ||| ("http://"@ + region + ".bcebos.com"@).is_prefix_of(text.skip(at))
        ||| ("https://"@ + region + ".bcebos.com"@).is_prefix_of(text.skip(at))
    }
}

/// At position `at` of `text` stands `region`, and none stands before.
pub open spec fn first_region_at(text: Seq<char>, at: int, region: Seq<char>) -> bool {
    &&& region_at(text, at, region)
    &&& forall|before: int, other: Seq<char>| before < at ==> !region_at(text, before, other)
}

/// Some position of `text` is the first to have a region, which is `region`.
pub open spec fn names_first(text: Seq<char>, region: Seq<char>) -> bool {
    exists|at: int| first_region_at(text, at, region)
}

/// No position of `text` has a region.
pub open spec fn lacks_region(text: Seq<char>) -> bool {
    forall|at: int, region: Seq<char>| !region_at(text, at, region)
}

/// `found` is the region at the first position of `text` that has one.
pub open spec fn is_first_region(text: Seq<char>, found: Option<Seq<char>>) -> bool {
    match found {
        Some(region) => names_first(text, region),
        None => lacks_region(text),
    }
}

/// The reason why `regex::Regex::new` refuses a pattern.
#[verifier::external_type_specification]
#[verifier::external_body]
pub struct ExRegexError(regex::Error);

/// Compiles `pattern` with `regex::Regex::new`, searches `text` with
/// `regex::Regex::captures`, and hands out what the first group matched. Of
/// `REGION_PATTERN` the contract says that it compiles, and that the search finds
/// the leftmost place at which the pattern matches: `s?` matches an `s` or
/// nothing, `[^.]+` one or more characters other than a dot, `\.` a dot, and
/// everything else itself.
#[verifier::external_body]
fn first_group(pattern: &str, text: &str) -> (r: Result<Option<String>, regex::Error>)
    requires
        pattern@ == REGION_PATTERN@,
    ensures
        r is Ok,
        is_first_region(text@, view_opt(r->Ok_0)),
{
    let regex = regex::Regex::new(pattern)?;
    let found = regex.captures(text);
    Ok(found.and_then(|groups| groups.get(1).map(|group| group.as_str().to_string())))
}

/// The region that `text` names first, if it names one.
pub open spec fn region_of(text: Seq<char>) -> Option<Seq<char>> {
    choose|found: Option<Seq<char>>| is_first_region(text, found)
}

/// At most one region stands at a position.
proof fn lemma_region_at_unique(text: Seq<char>, at: int, a: Seq<char>, b: Seq<char>)
    requires
        region_at(text, at, a),
        region_at(text, at, b),
    ensures
        a == b,
{
    reveal_strlit("http://");
    reveal_strlit("https://");
    reveal_strlit(".bcebos.com");
    let rest = text.skip(at);
    let plain_a = "http://"@ + a + ".bcebos.com"@;
    let plain_b = "http://"@ + b + ".bcebos.com"@;
    let tls_a = "https://"@ + a + ".bcebos.com"@;
    let tls_b = "https://"@ + b + ".bcebos.com"@;
    let n: int = if plain_a.is_prefix_of(rest) {
        assert(rest[4] == plain_a[4]);
        7
    } else {
        assert(rest[4] == tls_a[4]);
        8
    };
    let whole_a = if n == 7 { plain_a } else { tls_a };
    let whole_b = if n == 7 { plain_b } else { tls_b };
    assert(plain_b.is_prefix_of(rest) ==> rest[4] == plain_b[4]);
    assert(tls_b.is_prefix_of(rest) ==> rest[4] == tls_b[4]);
    assert(whole_b.is_prefix_of(rest));
    assert forall|i: int| 0 <= i < a.len() && i < b.len() implies a[i] == b[i] by {
        assert(whole_a[n + i] == a[i]);
        assert(whole_b[n + i] == b[i]);
        assert(rest[n + i] == whole_a[n + i]);
        assert(rest[n + i] == whole_b[n + i]);
    }
    if a.len() < b.len() {
        let i = a.len() as int;
        assert(whole_a[n + i] == '.');
        assert(rest[n + i] == whole_a[n + i]);
        assert(rest[n + i] == whole_b[n + i]);
        assert(b[i] == '.');
    } else if b.len() < a.len() {
        let i = b.len() as int;
        assert(whole_b[n + i] == '.');
        assert(rest[n + i] == whole_a[n + i]);
        assert(rest[n + i] == whole_b[n + i]);
        assert(a[i] == '.');
    }
    assert(a =~= b);
}

/// A text has at most one first region.
pub proof fn lemma_first_region_unique(
    text: Seq<char>,
    a: Option<Seq<char>>,
    b: Option<Seq<char>>,
)
    requires
        is_first_region(text, a),
        is_first_region(text, b),
    ensures
        a == b,
{
    if a is Some && b is Some {
        let at_a = choose|at: int| first_region_at(text, at, a->0);
        let at_b = choose|at: int| first_region_at(text, at, b->0);
        assert(at_a == at_b);
        lemma_region_at_unique(text, at_a, a->0, b->0);
    }
}

/// The region of an endpoint of the form `http(s)://<region>.bcebos.com` is its
/// first label, whatever follows.
pub proof fn lemma_region_of_endpoint(region: Seq<char>, rest: Seq<char>)
    requires
        region.len() > 0,
        !region.contains('.'),
    ensures
        region_of("http://"@ + region + ".bcebos.com"@ + rest) == Some(region),
        region_of("https://"@ + region + ".bcebos.com"@ + rest) == Some(region),
{
    assert forall|start: Seq<char>| start == "http://"@ || start == "https://"@ implies region_of(
        #[trigger] (start + region + ".bcebos.com"@ + rest),
    ) == Some(region) by {
        let text = start + region + ".bcebos.com"@ + rest;
        let whole = start + region + ".bcebos.com"@;
        assert(text.skip(0) =~= text);
        assert(text.subrange(0, whole.len() as int) =~= whole);
        assert(first_region_at(text, 0, region));
        assert(is_first_region(text, Some(region)));
        lemma_first_region_unique(text, Some(region), region_of(text));
    }
}

/// If some position has a region, then one position is the first to have one.
proof fn lemma_some_region_is_first(text: Seq<char>, at: int, region: Seq<char>)
    requires
        region_at(text, at, region),
    ensures
        exists|first: Seq<char>| is_first_region(text, Some(first)),
    decreases at,
{
    if exists|before: int, other: Seq<char>| before < at && region_at(text, before, other) {
        let (before, other) = choose|before: int, other: Seq<char>|
            before < at && region_at(text, before, other);
        lemma_some_region_is_first(text, before, other);
    } else {
        assert(first_region_at(text, at, region));
        assert(is_first_region(text, Some(region)));
    }
}

/// `region_of` is the first region of every text.
pub proof fn lemma_region_of_is_first(text: Seq<char>)
    ensures
        is_first_region(text, region_of(text)),
{
    if exists|at: int, region: Seq<char>| region_at(text, at, region) {
        let (at, region) = choose|at: int, region: Seq<char>| region_at(text, at, region);
        lemma_some_region_is_first(text, at, region);
        let first = choose|first: Seq<char>| is_first_region(text, Some(first));
        assert(is_first_region(text, Some(first)));
    } else {
        assert(is_first_region(text, None));
    }
}

/// A region is not empty and holds no dot.
pub proof fn lemma_region_is_label(text: Seq<char>)
    ensures
        region_of(text) matches Some(region) ==> region.len() > 0 && !region.contains('.'),
{
    lemma_region_of_is_first(text);
}

/// The region that a BOS endpoint names.
pub fn extract_region(endpoint: &str) -> (r: Option<String>)
    ensures
        is_first_region(endpoint@, view_opt(r)),
        view_opt(r) == region_of(endpoint@),
{
    match first_group(REGION_PATTERN, endpoint) {
        Ok(found) => {
            proof {
                lemma_first_region_unique(endpoint@, view_opt(found), region_of(endpoint@));
            }
            found
        },
        Err(_) => None,
    }
}

/// The name under which the S3 client knows what an environment variable sets,
/// whose name is `lower` in lowercase, if it is one of the variables that BOS stores
/// look at.
pub open spec fn config_name(lower: Seq<char>) -> Option<Seq<char>> {
    match without_prefix(lower, "bos_"@) {
        Some(name) => Some(name),
        None => without_prefix(lower, "aws_"@),
    }
}

/// The name under which the S3 client knows what the environment variable `key`
/// sets, if it is one of the variables that BOS stores look at.
pub open spec fn normalized_key(key: Seq<char>) -> Option<Seq<char>> {
    config_name(lowercase(key))
}

/// The name under which the S3 client knows what the environment variable `key`
/// sets, if it is one of the variables that BOS stores look at. The recognized
/// `BOS_*` variables already share their names with the configuration keys.
pub fn normalize_s3_env_var(key: &str) -> (r: Option<String>)
    ensures
        view_opt(r) == normalized_key(key@),
        all_ascii(key@) ==> view_opt(r) == config_name(ascii_lowercase(key@)),
{
    let key = lowercase_string(key);
    match strip_prefix(key.as_str(), "bos_") {
        Some(name) => Some(name.to_owned()),
        None => match strip_prefix(key.as_str(), "aws_") {
            Some(name) => Some(name.to_owned()),
            None => None,
        },
    }
}

/// The S3 endpoint that belongs to a BOS endpoint.
pub open spec fn s3_endpoint(endpoint: Seq<char>) -> Option<Seq<char>> {
    match without_prefix(endpoint, "https://"@) {
        Some(rest) => Some("https://s3."@ + rest),
        None => match without_prefix(endpoint, "http://"@) {
            Some(rest) => Some("http://s3."@ + rest),
            None => None,
        },
    }
}

/// The S3 endpoint that belongs to a BOS endpoint.
pub fn convert_to_s3_endpoint(endpoint: &str) -> (r: Option<String>)
    ensures
        view_opt(r) == s3_endpoint(endpoint@),
{
    match strip_prefix(endpoint, "https://") {
        Some(rest) => Some(concat("https://s3.", rest)),
        None => match strip_prefix(endpoint, "http://") {
            Some(rest) => Some(concat("http://s3.", rest)),
            None => None,
        },
    }
}

/// Different BOS endpoints have different S3 endpoints.
pub proof fn lemma_s3_endpoint_injective(a: Seq<char>, b: Seq<char>)
    requires
        s3_endpoint(a) is Some,
        s3_endpoint(a) == s3_endpoint(b),
    ensures
        a == b,
{
    reveal_strlit("https://");
    reveal_strlit("http://");
    reveal_strlit("https://s3.");
    reveal_strlit("http://s3.");
    let tls_a = without_prefix(a, "https://"@);
    let tls_b = without_prefix(b, "https://"@);
    let s3_a = s3_endpoint(a)->0;
    let s3_b = s3_endpoint(b)->0;
    assert(tls_a is Some ==> s3_a[4] == 's');
    assert(tls_b is Some ==> s3_b[4] == 's');
    assert(tls_a is None ==> s3_a[4] == ':');
    assert(tls_b is None ==> s3_b[4] == ':');
    if tls_a is Some {
        lemma_same_start("https://s3."@, tls_a->0, tls_b->0);
        assert(a =~= "https://"@ + tls_a->0);
        assert(b =~= "https://"@ + tls_b->0);
    } else {
        let rest_a = without_prefix(a, "http://"@)->0;
        let rest_b = without_prefix(b, "http://"@)->0;
        lemma_same_start("http://s3."@, rest_a, rest_b);
        assert(a =~= "http://"@ + rest_a);
        assert(b =~= "http://"@ + rest_b);
    }
}

/// The pairs of an environment that BOS stores look at, under the names of the S3
/// client.
pub open spec fn normalized_env(env: Seq<Pair>) -> Seq<Pair>
    decreases env.len(),
{
    if env.len() == 0 {
        Seq::empty()
    } else {
        let init = normalized_env(env.drop_last());
        match normalized_key(env.last().0) {
            Some(name) => init.push((name, env.last().1)),
            None => init,
        }
    }
}

/// The configuration that an environment alone gives.
fn env_config(env: &Vec<(String, String)>) -> (r: StringMap)
    ensures
        r@ == collected(normalized_env(pairs_of(env@))),
{
    let mut config = StringMap::new();
    let mut i: usize = 0;
    while i < env.len()
        invariant
            i <= env.len(),
            config@ == collected(normalized_env(pairs_of(env@).take(i as int))),
        decreases env.len() - i,
    {
        proof {
            let all = pairs_of(env@);
            let seen = all.take(i as int);
            let next = all.take(i + 1);
            assert(next.drop_last() =~= seen);
            if let Some(name) = normalized_key(next.last().0) {
                let pair = (name, next.last().1);
                assert(normalized_env(seen).push(pair).drop_last() =~= normalized_env(seen));
            }
        }
        if let Some(name) = normalize_s3_env_var(env[i].0.as_str()) {
            config.insert(name, env[i].1.clone());
        }
        i = i + 1;
    }
    assert(pairs_of(env@).take(env@.len() as int) =~= pairs_of(env@));
    config
}

/// `config` with the value that `options` holds under `option`, if it holds one,
/// stored under `name`.
pub open spec fn overridden(
    config: Map<Seq<char>, Seq<char>>,
    options: Map<Seq<char>, Seq<char>>,
    option: Seq<char>,
    name: Seq<char>,
) -> Map<Seq<char>, Seq<char>> {
    if options.contains_key(option) {
        config.insert(name, options[option])
    } else {
        config
    }
}

/// The configuration of the S3 client: what the environment sets, then the bucket,
/// then what the storage options set.
pub open spec fn bos_config(
    bucket: Seq<char>,
    options: Map<Seq<char>, Seq<char>>,
    env: Seq<Pair>,
) -> Map<Seq<char>, Seq<char>> {
    let base = collected(normalized_env(env)).insert("bucket"@, bucket);
    let located = if options.contains_key("fs.bos.endpoint"@) {
        let endpoint = options["fs.bos.endpoint"@];
        base.insert("endpoint"@, s3_endpoint(endpoint)->0).insert(
            "region"@,
            region_of(endpoint)->0,
        )
    } else {
        base
    };
    let keyed = overridden(located, options, "fs.bos.access.key"@, "access_key_id"@);
    let secret = overridden(keyed, options, "fs.bos.secret.access.key"@, "secret_access_key"@);
    overridden(secret, options, "fs.bos.session.token.key"@, "session_token"@)
}

/// Why no store is opened, if none is.
pub open spec fn bos_refusal(
    host: Option<Seq<char>>,
    options: Map<Seq<char>, Seq<char>>,
    env: Seq<Pair>,
) -> Option<Seq<char>> {
    let endpoint = options["fs.bos.endpoint"@];
    if host is None {
        Some("BOS URL must contain bucket name"@)
    } else if options.contains_key("fs.bos.endpoint"@) && s3_endpoint(endpoint) is None {
        Some(
            "Invalid BOS endpoint format: '"@ + endpoint + "', expected 'http(s)://...'"@,
        )
    } else if options.contains_key("fs.bos.endpoint"@) && region_of(endpoint) is None {
        Some(
            "Cannot extract region from BOS endpoint: '"@ + endpoint
                + "', expected 'http(s)://<region>.bcebos.com'"@,
        )
    } else if !bos_config(host->0, options, env).contains_key("endpoint"@) {
        Some(
            "BOS endpoint is required. Please provide 'fs.bos.endpoint' in storage options or set BOS_ENDPOINT environment variable"@,
        )
    } else {
        None
    }
}

/// An error whose message quotes `value`.
fn refuse(before: &str, value: &str, after: &str) -> (r: StoreError)
    ensures
        r is InvalidInput,
        r.text() == before@ + value@ + after@,
{
    let message = concat(before, value);
    StoreError::invalid_input(concat(message.as_str(), after))
}

/// Stores the value that `options` holds under `option`, if it holds one, under
/// `name`.
fn override_with(config: &mut StringMap, options: &StringMap, option: &str, name: &str)
    ensures
        final(config)@ == overridden(old(config)@, options@, option@, name@),
{
    if let Some(value) = options.get(option) {
        config.insert(name.to_owned(), value.clone());
    }
}

/// What is needed to open a store on BOS.
#[derive(Debug)]
pub struct BosStore {
    /// The configuration of the S3 client.
    pub config: StringMap,
    pub settings: StoreSettings,
}

/// Opens stores on BOS.
#[derive(Debug)]
pub struct BosStoreProvider;

impl Default for BosStoreProvider {
    fn default() -> (r: Self)
        ensures
            r == BosStoreProvider,
    {
        BosStoreProvider
    }
}

impl ObjectStoreProvider for BosStoreProvider {

}

impl BosStoreProvider {
    /// The bucket that a URL names. Rejects a URL without one, such as `bos:///path`.
    pub fn bucket(&self, base_path: &UrlParts) -> (r: Result<String, StoreError>)
        ensures
            match r {
                Ok(bucket) => base_path@.host == Some(bucket@),
                Err(e) => {
                    &&& base_path@.host is None
                    &&& e is InvalidInput
                    &&& e.text() == "BOS URL must contain bucket name"@
                },
            },
    {
        match &base_path.host {
            Some(host) => Ok(host.clone()),
            None => Err(StoreError::invalid_input("BOS URL must contain bucket name".to_owned())),
        }
    }

    /// Settles everything about the store at `base_path` but the client itself. `env`
    /// is the environment of the process, in the order in which it is listed.
    pub fn new_store(
        &self,
        base_path: &StoreUrl,
        params: &ObjectStoreParams,
        env: &Vec<(String, String)>,
    ) -> (r: Result<BosStore, StoreError>)
        requires
            base_path@.host is Some ==> base_path@.fits_as_directory(),
        ensures
            match r {
                Ok(store) => {
                    &&& bos_refusal(base_path@.host, params.options(), pairs_of(env@)) is None
                    &&& store.config@ == bos_config(
                        base_path@.host->0,
                        params.options(),
                        pairs_of(env@),
                    )
                    &&& store.settings.follow_from(
                        params,
                        params.options(),
                        "bos"@,
                        DEFAULT_CLOUD_BLOCK_SIZE,
                        true,
                        DEFAULT_CLOUD_IO_PARALLELISM,
                    )
                    &&& store.settings.store_prefix@ == store_prefix(
                        directory_url(base_path.text(), base_path@),
                    )
                    &&& store.settings.store_prefix@ == store_prefix(base_path@)
                    &&& store.settings.store_prefix@ == base_path@.scheme + "$"@
                        + base_path@.authority
                    &&& forall|size: usize|
                        params.block_size == Some(size) ==> store.settings.block_size == size
                    &&& params.block_size is None ==> store.settings.block_size
                        == DEFAULT_CLOUD_BLOCK_SIZE
                },
                Err(e) => {
                    &&& e is InvalidInput
                    &&& bos_refusal(base_path@.host, params.options(), pairs_of(env@)) == Some(
                        e.text(),
                    )
                },
            },
    {
        let block_size: usize = match params.block_size {
            Some(size) => size,
            None => DEFAULT_CLOUD_BLOCK_SIZE,
        };
        let storage_options = params.options_or_empty();
        let bucket = match self.bucket(base_path.parts()) {
            Ok(bucket) => bucket,
            Err(e) => {
                return Err(e);
            },
        };
        let mut config = env_config(env);
        config.insert("bucket".to_owned(), bucket);
        if let Some(endpoint) = storage_options.get("fs.bos.endpoint") {
            let s3_endpoint = match convert_to_s3_endpoint(endpoint.as_str()) {
                Some(converted) => converted,
                None => {
                    return Err(
                        refuse(
                            "Invalid BOS endpoint format: '",
                            endpoint.as_str(),
                            "', expected 'http(s)://...'",
                        ),
                    );
                },
            };
            let region = match extract_region(endpoint.as_str()) {
                Some(region) => region,
                None => {
                    return Err(
                        refuse(
                            "Cannot extract region from BOS endpoint: '",
                            endpoint.as_str(),
                            "', expected 'http(s)://<region>.bcebos.com'",
                        ),
                    );
                },
            };
            config.insert("endpoint".to_owned(), s3_endpoint);
            config.insert("region".to_owned(), region);
        }
        override_with(&mut config, &storage_options, "fs.bos.access.key", "access_key_id");
        override_with(
            &mut config,
            &storage_options,
            "fs.bos.secret.access.key",
            "secret_access_key",
        );
        override_with(&mut config, &storage_options, "fs.bos.session.token.key", "session_token");
        if !config.contains_key("endpoint") {
            return Err(
                StoreError::invalid_input(
                    "BOS endpoint is required. Please provide 'fs.bos.endpoint' in storage options or set BOS_ENDPOINT environment variable".to_owned(),
                ),
            );
        }
        let url = base_path.as_directory();
        let prefix = self.calculate_object_store_prefix(&url, params.storage_options());
        let store_prefix = match prefix {
            Ok(prefix) => prefix,
            Err(e) => {
                return Err(e);
            },
        };
        let settings = StoreSettings {
            scheme: "bos".to_owned(),
            block_size,
            use_constant_size_upload_parts: params.use_constant_size_upload_parts,
            list_is_lexically_ordered: match params.list_is_lexically_ordered {
                Some(ordered) => ordered,
                None => true,
            },
            io_parallelism: DEFAULT_CLOUD_IO_PARALLELISM,
            storage_options,
            store_prefix,
        };
        Ok(BosStore { config, settings })
    }

    /// The error for an S3 client that cannot be built. `reason` says why.
    pub fn operator_error(reason: &str) -> (r: StoreError)
        ensures
            r is InvalidInput,
            r.text() == "Failed to create BOS(S3) operator: "@ + reason@,
    {
        StoreError::invalid_input(concat("Failed to create BOS(S3) operator: ", reason))
    }
}

proof fn lemma_config_names_differ()
    ensures
        "bucket"@ != "endpoint"@,
        "bucket"@ != "region"@,
        "bucket"@ != "access_key_id"@,
        "bucket"@ != "secret_access_key"@,
        "bucket"@ != "session_token"@,
        "endpoint"@ != "region"@,
        "endpoint"@ != "access_key_id"@,
        "endpoint"@ != "secret_access_key"@,
        "endpoint"@ != "session_token"@,
        "region"@ != "access_key_id"@,
        "region"@ != "secret_access_key"@,
        "region"@ != "session_token"@,
        "access_key_id"@ != "secret_access_key"@,
        "access_key_id"@ != "session_token"@,
        "secret_access_key"@ != "session_token"@,
{
    reveal_strlit("bucket");
    reveal_strlit("endpoint");
    reveal_strlit("region");
    reveal_strlit("access_key_id");
    reveal_strlit("secret_access_key");
    reveal_strlit("session_token");
    assert("secret_access_key"@.len() != "session_token"@.len());
    assert("bucket"@[0] == 'b' && "endpoint"@[0] == 'e' && "region"@[0] == 'r');
    assert("access_key_id"@[0] == 'a' && "secret_access_key"@[0] == 's');
    assert("session_token"@[0] == 's');
}

/// The bucket of the configuration is the host of the URL, whatever the environment
/// and the options say.
pub proof fn lemma_bucket_is_host(
    bucket: Seq<char>,
    options: Map<Seq<char>, Seq<char>>,
    env: Seq<Pair>,
)
    ensures
        bos_config(bucket, options, env).contains_pair("bucket"@, bucket),
{
    lemma_config_names_differ();
}

/// Storage options decide over the environment.
pub proof fn lemma_options_override_env(
    bucket: Seq<char>,
    options: Map<Seq<char>, Seq<char>>,
    env: Seq<Pair>,
)
    ensures
        ({
            let config = bos_config(bucket, options, env);
            let endpoint = options["fs.bos.endpoint"@];
            &&& options.contains_key("fs.bos.endpoint"@) ==> {
                &&& config.contains_pair("endpoint"@, s3_endpoint(endpoint)->0)
                &&& config.contains_pair("region"@, region_of(endpoint)->0)
            }
            &&& options.contains_key("fs.bos.access.key"@) ==> config.contains_pair(
                "access_key_id"@,
                options["fs.bos.access.key"@],
            )
            &&& options.contains_key("fs.bos.secret.access.key"@) ==> config.contains_pair(
                "secret_access_key"@,
                options["fs.bos.secret.access.key"@],
            )
            &&& options.contains_key("fs.bos.session.token.key"@) ==> config.contains_pair(
                "session_token"@,
                options["fs.bos.session.token.key"@],
            )
        }),
{
    lemma_config_names_differ();
}

/// What no storage option sets is as the environment sets it; nothing else is
/// configured.
pub proof fn lemma_env_fills_the_rest(
    bucket: Seq<char>,
    options: Map<Seq<char>, Seq<char>>,
    env: Seq<Pair>,
    name: Seq<char>,
)
    requires
        name != "bucket"@,
        name == "endpoint"@ || name == "region"@ ==> !options.contains_key("fs.bos.endpoint"@),
        name == "access_key_id"@ ==> !options.contains_key("fs.bos.access.key"@),
        name == "secret_access_key"@ ==> !options.contains_key("fs.bos.secret.access.key"@),
        name == "session_token"@ ==> !options.contains_key("fs.bos.session.token.key"@),
    ensures
        bos_config(bucket, options, env).contains_key(name) == collected(
            normalized_env(env),
        ).contains_key(name),
        bos_config(bucket, options, env).contains_key(name) ==> bos_config(
            bucket,
            options,
            env,
        )[name] == collected(normalized_env(env))[name],
{
    lemma_config_names_differ();
}

/// A store is opened exactly if the URL has a host and there is an endpoint: a usable
/// one in the options, or else any in the environment.
pub proof fn lemma_when_opened(
    host: Option<Seq<char>>,
    options: Map<Seq<char>, Seq<char>>,
    env: Seq<Pair>,
)
    ensures
        bos_refusal(host, options, env) is None <==> host is Some && if options.contains_key(
            "fs.bos.endpoint"@,
        ) {
            let endpoint = options["fs.bos.endpoint"@];
            s3_endpoint(endpoint) is Some && region_of(endpoint) is Some
        } else {
            collected(normalized_env(env)).contains_key("endpoint"@)
        },
{
    lemma_config_names_differ();
}

/// An endpoint of the form `http(s)://<region>.bcebos.com` is usable, whatever
/// follows.
pub proof fn lemma_bos_endpoints_are_usable(region: Seq<char>, rest: Seq<char>)
    requires
        region.len() > 0,
        !region.contains('.'),
    ensures
        s3_endpoint("http://"@ + region + ".bcebos.com"@ + rest) == Some(
            "http://s3."@ + region + ".bcebos.com"@ + rest,
        ),
        s3_endpoint("https://"@ + region + ".bcebos.com"@ + rest) == Some(
            "https://s3."@ + region + ".bcebos.com"@ + rest,
        ),
        region_of("http://"@ + region + ".bcebos.com"@ + rest) == Some(region),
        region_of("https://"@ + region + ".bcebos.com"@ + rest) == Some(region),
{
    lemma_region_of_endpoint(region, rest);
    reveal_strlit("https://");
    reveal_strlit("http://");
    let tail = region + ".bcebos.com"@ + rest;
    let plain = "http://"@ + region + ".bcebos.com"@ + rest;
    let tls = "https://"@ + region + ".bcebos.com"@ + rest;
    assert(plain[4] == ':');
    assert("https://"@[4] == 's');
    assert(plain.subrange(0, 8)[4] == plain[4]);
    assert(plain.subrange(0, 7) =~= "http://"@);
    assert(tls.subrange(0, 8) =~= "https://"@);
    assert(plain.skip(7) =~= tail);
    assert(tls.skip(8) =~= tail);
    assert("http://s3."@ + tail =~= "http://s3."@ + region + ".bcebos.com"@ + rest);
    assert("https://s3."@ + tail =~= "https://s3."@ + region + ".bcebos.com"@ + rest);
}

/// A variable is recognized by the start of its name in lowercase, `bos_` or `aws_`,
/// and sets what follows.
pub proof fn lemma_recognized_variables(key: Seq<char>, rest: Seq<char>)
    ensures
        lowercase(key) == "bos_"@ + rest ==> normalized_key(key) == Some(rest),
        lowercase(key) == "aws_"@ + rest ==> normalized_key(key) == Some(rest),
        !"bos_"@.is_prefix_of(lowercase(key)) && !"aws_"@.is_prefix_of(lowercase(key))
            ==> normalized_key(key) is None,
{
    reveal_strlit("bos_");
    reveal_strlit("aws_");
    let lower = lowercase(key);
    lemma_without_prefix(lower, "bos_"@, rest);
    lemma_without_prefix(lower, "aws_"@, rest);
    if lower == "aws_"@ + rest {
        assert(lower[0] == 'a');
        assert("bos_"@[0] == 'b');
        assert(lower.subrange(0, 4)[0] == lower[0]);
    }
}

/// The names that a recognized variable can set are told by its lowercase text.
pub proof fn lemma_config_names(lower: Seq<char>, rest: Seq<char>)
    ensures
        lower == "bos_"@ + rest ==> config_name(lower) == Some(rest),
        lower == "aws_"@ + rest ==> config_name(lower) == Some(rest),
        !"bos_"@.is_prefix_of(lower) && !"aws_"@.is_prefix_of(lower) ==> config_name(lower)
            is None,
{
    reveal_strlit("bos_");
    reveal_strlit("aws_");
    lemma_without_prefix(lower, "bos_"@, rest);
    lemma_without_prefix(lower, "aws_"@, rest);
    if lower == "aws_"@ + rest {
        assert(lower[0] == 'a');
        assert("bos_"@[0] == 'b');
        assert(lower.subrange(0, 4)[0] == lower[0]);
    }
}

/// Every recognized variable counts, wherever it is listed: of those that set the same
/// name, the last one decides.
pub proof fn lemma_last_variable_decides(env: Seq<Pair>, i: int, name: Seq<char>)
    requires
        0 <= i < env.len(),
        normalized_key(env[i].0) == Some(name),
        forall|j: int| i < j < env.len() ==> normalized_key((#[trigger] env[j]).0) != Some(name),
    ensures
        collected(normalized_env(env)).contains_key(name),
        collected(normalized_env(env))[name] == env[i].1,
    decreases env.len(),
{
    let init = env.drop_last();
    if let Some(last) = normalized_key(env.last().0) {
        lemma_collected_push(normalized_env(init), (last, env.last().1));
    }
    if i < env.len() - 1 {
        assert forall|j: int| i < j < init.len() implies normalized_key((#[trigger] init[j]).0)
            != Some(name) by {
            assert(init[j] == env[j]);
        }
        lemma_last_variable_decides(init, i, name);
        assert(env[env.len() - 1] == env.last());
    }
}

/// What the environment sets, some variable sets: the last one that sets the name.
pub proof fn lemma_variables_set_nothing_else(env: Seq<Pair>, name: Seq<char>)
    requires
        collected(normalized_env(env)).contains_key(name),
    ensures
        exists|i: int|
            0 <= i < env.len() && normalized_key((#[trigger] env[i]).0) == Some(name) && collected(
                normalized_env(env),
            )[name] == env[i].1 && forall|j: int|
                i < j < env.len() ==> normalized_key((#[trigger] env[j]).0) != Some(name),
    decreases env.len(),
{
    if env.len() > 0 {
        let init = env.drop_last();
        let last = env.len() - 1;
        if let Some(other) = normalized_key(env.last().0) {
            lemma_collected_push(normalized_env(init), (other, env.last().1));
        }
        if normalized_key(env[last].0) != Some(name) {
            lemma_variables_set_nothing_else(init, name);
            let i = choose|i: int|
                0 <= i < init.len() && normalized_key((#[trigger] init[i]).0) == Some(name)
                    && collected(normalized_env(init))[name] == init[i].1 && forall|j: int|
                    i < j < init.len() ==> normalized_key((#[trigger] init[j]).0) != Some(name);
            assert(env[i] == init[i]);
            assert forall|j: int| i < j < env.len() implies normalized_key((#[trigger] env[j]).0)
                != Some(name) by {
                if j < last {
                    assert(init[j] == env[j]);
                }
            }
        }
    }
}

/// A variable that is not recognized makes no difference.
pub proof fn lemma_other_variables_are_ignored(env: Seq<Pair>, k: int)
    requires
        0 <= k < env.len(),
        normalized_key(env[k].0) is None,
    ensures
        collected(normalized_env(env.remove(k))) == collected(normalized_env(env)),
        normalized_env(env.remove(k)) == normalized_env(env),
    decreases env.len(),
{
    let init = env.drop_last();
    if k == env.len() - 1 {
        assert(env.remove(k) =~= init);
    } else {
        lemma_other_variables_are_ignored(init, k);
        assert(env.remove(k).drop_last() =~= init.remove(k));
        assert(env.remove(k).last() == env.last());
    }
}

/// A recognized variable reaches the S3 client, wherever it is listed, unless a later
/// one sets the same name, or the URL or a storage option does.
pub proof fn lemma_variables_reach_the_client(
    bucket: Seq<char>,
    options: Map<Seq<char>, Seq<char>>,
    env: Seq<Pair>,
    i: int,
    name: Seq<char>,
)
    requires
        0 <= i < env.len(),
        normalized_key(env[i].0) == Some(name),
        forall|j: int| i < j < env.len() ==> normalized_key((#[trigger] env[j]).0) != Some(name),
        name != "bucket"@,
        name == "endpoint"@ || name == "region"@ ==> !options.contains_key("fs.bos.endpoint"@),
        name == "access_key_id"@ ==> !options.contains_key("fs.bos.access.key"@),
        name == "secret_access_key"@ ==> !options.contains_key("fs.bos.secret.access.key"@),
        name == "session_token"@ ==> !options.contains_key("fs.bos.session.token.key"@),
    ensures
        bos_config(bucket, options, env).contains_key(name),
        bos_config(bucket, options, env)[name] == env[i].1,
{
    lemma_last_variable_decides(env, i, name);
    lemma_env_fills_the_rest(bucket, options, env, name);
}

/// The S3 endpoint has `s3.` behind the scheme, which is kept, and nothing but HTTP has
/// one.
pub proof fn lemma_s3_endpoint_keeps_scheme(endpoint: Seq<char>, rest: Seq<char>)
    ensures
        endpoint == "https://"@ + rest ==> s3_endpoint(endpoint) == Some("https://s3."@ + rest),
        endpoint == "http://"@ + rest ==> s3_endpoint(endpoint) == Some("http://s3."@ + rest),
        !"https://"@.is_prefix_of(endpoint) && !"http://"@.is_prefix_of(endpoint)
            ==> s3_endpoint(endpoint) is None,
{
    reveal_strlit("https://");
    reveal_strlit("http://");
    lemma_without_prefix(endpoint, "https://"@, rest);
    lemma_without_prefix(endpoint, "http://"@, rest);
    if endpoint == "http://"@ + rest {
        assert(endpoint[4] == ':');
        assert("https://"@[4] == 's');
        if "https://"@.is_prefix_of(endpoint) {
            assert(endpoint.subrange(0, 8)[4] == endpoint[4]);
        }
    }
}

/// The region of a text is the label that stands first between `http://` or `https://`
/// and `.bcebos.com`.
pub proof fn lemma_region_stands_first(
    text: Seq<char>,
    before: Seq<char>,
    start: Seq<char>,
    region: Seq<char>,
    rest: Seq<char>,
)
    requires
        text == before + start + region + ".bcebos.com"@ + rest,
        start == "http://"@ || start == "https://"@,
        region.len() > 0,
        !region.contains('.'),
        forall|earlier: Seq<char>, other_start: Seq<char>, other: Seq<char>, other_rest: Seq<char>|
            text == #[trigger] (earlier + other_start + other + ".bcebos.com"@ + other_rest) && (
            other_start == "http://"@ || other_start == "https://"@) && other.len() > 0
                && !other.contains('.') ==> earlier.len() >= before.len(),
    ensures
        region_of(text) == Some(region),
{
    let at = before.len() as int;
    let whole = start + region + ".bcebos.com"@;
    assert(text.skip(at) =~= whole + rest);
    assert((whole + rest).subrange(0, whole.len() as int) =~= whole);
    assert(region_at(text, at, region));
    assert forall|position: int, other: Seq<char>| position < at implies !region_at(
        text,
        position,
        other,
    ) by {
        if region_at(text, position, other) {
            lemma_region_splits(text, position, other);
            let (other_start, other_rest) = choose|s: Seq<char>, r: Seq<char>|
                (s == "http://"@ || s == "https://"@) && text == #[trigger] (text.take(position) + s
                    + other + ".bcebos.com"@ + r);
            assert(text == text.take(position) + other_start + other + ".bcebos.com"@ + other_rest);
        }
    }
    assert(first_region_at(text, at, region));
    assert(is_first_region(text, Some(region)));
    lemma_region_of_is_first(text);
    lemma_first_region_unique(text, Some(region), region_of(text));
}

/// A text in which no label stands between `http://` or `https://` and `.bcebos.com`
/// has no region.
pub proof fn lemma_no_region(text: Seq<char>)
    requires
        forall|before: Seq<char>, start: Seq<char>, region: Seq<char>, rest: Seq<char>|
            text == #[trigger] (before + start + region + ".bcebos.com"@ + rest) && (start
                == "http://"@ || start == "https://"@) && region.len() > 0
                ==> region.contains('.'),
    ensures
        region_of(text) is None,
{
    assert forall|position: int, region: Seq<char>| !region_at(text, position, region) by {
        if region_at(text, position, region) {
            lemma_region_splits(text, position, region);
            let (start, rest) = choose|s: Seq<char>, r: Seq<char>|
                (s == "http://"@ || s == "https://"@) && text == #[trigger] (text.take(position) + s
                    + region + ".bcebos.com"@ + r);
            assert(text == text.take(position) + start + region + ".bcebos.com"@ + rest);
        }
    }
    assert(is_first_region(text, None));
    lemma_region_of_is_first(text);
    lemma_first_region_unique(text, None, region_of(text));
}

/// A text with a region consists of what stands before it, the region itself, and what
/// follows.
proof fn lemma_region_splits(text: Seq<char>, at: int, region: Seq<char>)
    requires
        region_at(text, at, region),
    ensures
        exists|start: Seq<char>, rest: Seq<char>|
            (start == "http://"@ || start == "https://"@) && text == #[trigger] (text.take(at)
                + start + region + ".bcebos.com"@ + rest),
{
    let start = if ("http://"@ + region + ".bcebos.com"@).is_prefix_of(text.skip(at)) {
        "http://"@
    } else {
        "https://"@
    };
    let whole = start + region + ".bcebos.com"@;
    let rest = text.skip(at + whole.len());
    assert(text.skip(at).subrange(0, whole.len() as int) =~= text.subrange(at, at + whole.len()));
    assert(text =~= text.take(at) + whole + rest);
    assert(text.take(at) + whole + rest =~= text.take(at) + start + region + ".bcebos.com"@ + rest);
}

/// Each way in which the input is unusable has its own message, and the first that
/// applies is told.
pub proof fn lemma_refusals(
    host: Option<Seq<char>>,
    options: Map<Seq<char>, Seq<char>>,
    env: Seq<Pair>,
    endpoint: Seq<char>,
)
    ensures
        host is None ==> bos_refusal(host, options, env) == Some(
            "BOS URL must contain bucket name"@,
        ),
        host is Some && options.contains_pair("fs.bos.endpoint"@, endpoint)
            && !"http://"@.is_prefix_of(endpoint) && !"https://"@.is_prefix_of(endpoint)
            ==> bos_refusal(host, options, env) == Some(
            "Invalid BOS endpoint format: '"@ + endpoint + "', expected 'http(s)://...'"@,
        ),
        host is Some && options.contains_pair("fs.bos.endpoint"@, endpoint) && (
        "http://"@.is_prefix_of(endpoint) || "https://"@.is_prefix_of(endpoint)) && region_of(
            endpoint,
        ) is None ==> bos_refusal(host, options, env) == Some(
            "Cannot extract region from BOS endpoint: '"@ + endpoint
                + "', expected 'http(s)://<region>.bcebos.com'"@,
        ),
        host is Some && options.contains_pair("fs.bos.endpoint"@, endpoint) && (
        "http://"@.is_prefix_of(endpoint) || "https://"@.is_prefix_of(endpoint)) && region_of(
            endpoint,
        ) is Some ==> bos_refusal(host, options, env) is None,
        host is Some && !options.contains_key("fs.bos.endpoint"@) && (forall|i: int|
            0 <= i < env.len() ==> normalized_key((#[trigger] env[i]).0) != Some("endpoint"@))
            ==> bos_refusal(host, options, env) == Some(
            "BOS endpoint is required. Please provide 'fs.bos.endpoint' in storage options or set BOS_ENDPOINT environment variable"@,
        ),
        host is Some && !options.contains_key("fs.bos.endpoint"@) && (exists|i: int|
            0 <= i < env.len() && normalized_key((#[trigger] env[i]).0) == Some("endpoint"@))
            ==> bos_refusal(host, options, env) is None,
{
    lemma_config_names_differ();
    lemma_when_opened(host, options, env);
    if collected(normalized_env(env)).contains_key("endpoint"@) {
        lemma_variables_set_nothing_else(env, "endpoint"@);
    }
    if exists|i: int|
        0 <= i < env.len() && normalized_key((#[trigger] env[i]).0) == Some("endpoint"@) {
        let i = choose|i: int|
            0 <= i < env.len() && normalized_key((#[trigger] env[i]).0) == Some("endpoint"@);
        lemma_set_variables_are_there(env, i, "endpoint"@);
    }
}

/// What some variable sets, the environment sets.
proof fn lemma_set_variables_are_there(env: Seq<Pair>, i: int, name: Seq<char>)
    requires
        0 <= i < env.len(),
        normalized_key(env[i].0) == Some(name),
    ensures
        collected(normalized_env(env)).contains_key(name),
    decreases env.len() - i,
{
    if exists|j: int| i < j < env.len() && normalized_key((#[trigger] env[j]).0) == Some(name) {
        let j = choose|j: int|
            i < j < env.len() && normalized_key((#[trigger] env[j]).0) == Some(name);
        lemma_set_variables_are_there(env, j, name);
    } else {
        lemma_last_variable_decides(env, i, name);
    }
}

} // verus!
