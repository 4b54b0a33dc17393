//! Stores on HDFS.

use vstd::prelude::*;

use crate::error::StoreError;
use crate::store::{store_prefix, ObjectStoreParams, ObjectStoreProvider, StoreSettings};
use crate::string_map::{
    collected, distinct_keys, lemma_collected_push, pairs_of, Pair, StringMap,
};
use crate::text::{
    all_ascii, ascii_lowercase, lowercase, replace_char, replaced, starts_with, strip_prefix,
    lowercase_string, view_opt,
};
use crate::uri::{directory_url, root_path, url_with_path, StoreUrl, UrlParts, UrlView};

verus! {

// HDFS is typically colocated or low-latency; the cloud defaults amplify namenode
// and datanode requests without benefit.

/// The block size of an HDFS store that does not configure one.
pub const DEFAULT_HDFS_BLOCK_SIZE: usize = 1024 * 1024;

/// How many requests an HDFS store has in flight at a time.
pub const DEFAULT_HDFS_IO_PARALLELISM: usize = 16;

/// The Hadoop key that the environment variable `key` sets, if it sets one: the
/// name without its prefix, in lowercase, with dots for underscores.
pub open spec fn hadoop_key(key: Seq<char>) -> Option<Seq<char>> {
    if "HDFS_"@.is_prefix_of(key) {
        Some(replaced(lowercase(key).skip("hdfs_"@.len() as int), '_', '.'))
    } else {
        None
    }
}

/// The Hadoop key that the environment variable `key` sets, if it sets one.
pub fn hadoop_env_key(key: &str) -> (r: Option<String>)
    ensures
        view_opt(r) == hadoop_key(key@),
        all_ascii(key@) && r is Some ==> view_opt(r) == Some(
            replaced(ascii_lowercase(key@.skip("HDFS_"@.len() as int)), '_', '.'),
        ),
        r is Some ==> "hdfs_"@.is_prefix_of(lowercase(key@)),
{
    if !starts_with(key, "HDFS_") {
        return None;
    }
    let lower = lowercase_string(key);
    proof {
        reveal_strlit("HDFS_");
        reveal_strlit("hdfs_");
        let head = key@.take(5);
        assert(head =~= "HDFS_"@);
        assert(all_ascii(head));
        assert("hdfs_"@ =~= lower@.take(5));
        assert("hdfs_"@.is_prefix_of(lower@));
        if all_ascii(key@) {
            assert(lower@.skip(5) =~= ascii_lowercase(key@.skip(5)));
        }
    }
    match strip_prefix(lower.as_str(), "hdfs_") {
        Some(rest) => Some(replace_char(rest, '_', '.')),
        None => None,
    }
}

/// The pairs of an environment that set Hadoop keys, under those keys.
pub open spec fn hadoop_env(env: Seq<Pair>) -> Seq<Pair>
    decreases env.len(),
{
    if env.len() == 0 {
        Seq::empty()
    } else {
        let init = hadoop_env(env.drop_last());
        match hadoop_key(env.last().0) {
            Some(name) => init.push((name, env.last().1)),
            None => init,
        }
    }
}

/// The configuration that an environment alone gives.
fn env_config(env: &Vec<(String, String)>) -> (r: StringMap)
    ensures
        r@ == collected(hadoop_env(pairs_of(env@))),
{
    let mut config = StringMap::new();
    let mut i: usize = 0;
    while i < env.len()
        invariant
            i <= env.len(),
            config@ == collected(hadoop_env(pairs_of(env@).take(i as int))),
        decreases env.len() - i,
    {
        proof {
            let seen = pairs_of(env@).take(i as int);
            let next = pairs_of(env@).take(i + 1);
            assert(next.drop_last() =~= seen);
            if let Some(name) = hadoop_key(next.last().0) {
                let pair = (name, next.last().1);
                assert(hadoop_env(seen).push(pair).drop_last() =~= hadoop_env(seen));
            }
        }
        if let Some(name) = hadoop_env_key(env[i].0.as_str()) {
            config.insert(name, env[i].1.clone());
        }
        i = i + 1;
    }
    assert(pairs_of(env@).take(env@.len() as int) =~= pairs_of(env@));
    config
}

/// `key` starts like the standard Hadoop keys.
pub open spec fn is_hadoop_option(key: Seq<char>) -> bool {
    ||| "fs."@.is_prefix_of(key)
    ||| "dfs."@.is_prefix_of(key)
    ||| "hadoop."@.is_prefix_of(key)
}

/// The options that start like the standard Hadoop keys.
pub open spec fn hadoop_options(options: Map<Seq<char>, Seq<char>>) -> Map<Seq<char>, Seq<char>> {
    Map::new(
        |key: Seq<char>| options.contains_key(key) && is_hadoop_option(key),
        |key: Seq<char>| options[key],
    )
}

/// The configuration of the HDFS client: what the environment sets, overridden by
/// the storage options that start like the standard Hadoop keys.
pub open spec fn hdfs_config(
    options: Map<Seq<char>, Seq<char>>,
    env: Seq<Pair>,
) -> Map<Seq<char>, Seq<char>> {
    collected(hadoop_env(env)).union_prefer_right(hadoop_options(options))
}

/// Stores the options that start like the standard Hadoop keys in `config`.
fn pass_options(config: &mut StringMap, options: &StringMap)
    ensures
        final(config)@ == old(config)@.union_prefer_right(hadoop_options(options@)),
{
    let entries = options.entries();
    let ghost before = config@;
    let mut i: usize = 0;
    assert(config@ =~= before.union_prefer_right(
        hadoop_options(collected(pairs_of(entries@).take(0))),
    ));
    while i < entries.len()
        invariant
            i <= entries.len(),
            config@ == before.union_prefer_right(
                hadoop_options(collected(pairs_of(entries@).take(i as int))),
            ),
        decreases entries.len() - i,
    {
        let key = entries[i].0.as_str();
        proof {
            let next = pairs_of(entries@).take(i + 1);
            assert(next.drop_last() =~= pairs_of(entries@).take(i as int));
        }
        if starts_with(key, "fs.") || starts_with(key, "dfs.") || starts_with(key, "hadoop.") {
            config.insert(entries[i].0.clone(), entries[i].1.clone());
        }
        i = i + 1;
        assert(config@ =~= before.union_prefer_right(
            hadoop_options(collected(pairs_of(entries@).take(i as int))),
        ));
    }
    assert(pairs_of(entries@).take(entries@.len() as int) =~= options.pairs());
}

/// The keys of the pairs, one after the other, with a comma and a space in between.
pub open spec fn listed_keys(pairs: Seq<Pair>) -> Seq<char>
    decreases pairs.len(),
{
    if pairs.len() == 0 {
        Seq::empty()
    } else if pairs.len() == 1 {
        pairs[0].0
    } else {
        listed_keys(pairs.drop_last()) + ", "@ + pairs.last().0
    }
}

/// The keys of `config`, in its order, with a comma and a space in between.
fn list_keys(config: &StringMap) -> (r: String)
    ensures
        r@ == listed_keys(config.pairs()),
        distinct_keys(config.pairs()),
{
    let entries = config.entries();
    let mut keys = String::new();
    let mut i: usize = 0;
    while i < entries.len()
        invariant
            i <= entries.len(),
            keys@ == listed_keys(pairs_of(entries@).take(i as int)),
        decreases entries.len() - i,
    {
        proof {
            let next = pairs_of(entries@).take(i + 1);
            assert(next.drop_last() =~= pairs_of(entries@).take(i as int));
        }
        if i > 0 {
            keys.append(", ");
        }
        keys.append(entries[i].0.as_str());
        i = i + 1;
    }
    assert(pairs_of(entries@).take(entries@.len() as int) =~= config.pairs());
    keys
}

/// What came of asking for storage options that change over time.
#[derive(Debug)]
pub enum AccessorReply {
    /// There is nobody to ask.
    Absent,
    /// These options are in force.
    Fetched(StringMap),
    /// No options could be fetched.
    Failed,
}

impl AccessorReply {
    /// The options in force: the fetched ones, or else those of the parameters.
    pub open spec fn options(&self, params: &ObjectStoreParams) -> Map<Seq<char>, Seq<char>> {
        match self {
            AccessorReply::Fetched(options) => options@,
            _ => params.options(),
        }
    }

    /// The options in force: the fetched ones, or else those of the parameters.
    pub fn storage_options(self, params: &ObjectStoreParams) -> (r: StringMap)
        ensures
            r@ == self.options(params),
    {
        match self {
            AccessorReply::Fetched(options) => options,
            AccessorReply::Absent => params.options_or_empty(),
            AccessorReply::Failed => params.options_or_empty(),
        }
    }
}

/// The host names a nameservice.
pub open spec fn has_nameservice(host: Option<Seq<char>>) -> bool {
    host is Some && host->0.len() > 0
}

/// The message for a URL without a nameservice.
pub open spec fn missing_authority(url: Seq<char>) -> Seq<char> {
    "HDFS URL must include a nameservice authority, got '"@ + url + "'"@
}

/// The message for a client that cannot be built.
pub open spec fn build_failure(
    url: Seq<char>,
    reason: Seq<char>,
    keys: Seq<char>,
) -> Seq<char> {
    "Failed to create HDFS store for '"@ + url + "': "@ + reason + ". Keys=["@ + keys
        + "]. Ensure HA config (dfs.ha.namenodes.*, dfs.namenode.rpc-address.*) is set via storage_options or HADOOP_CONF_DIR."@
}

/// The URL that names the nameservice of `url` alone.
pub open spec fn nameservice_url(url: UrlView) -> Seq<char> {
    url.scheme + "://"@ + url.authority + root_path(url.scheme)
}

/// What is needed to open a store on HDFS.
#[derive(Debug)]
pub struct HdfsStore {
    /// The URL for the client, which names the nameservice alone.
    pub builder_url: String,
    /// The configuration of the client.
    pub config: StringMap,
    /// The keys of the configuration, for messages.
    pub config_keys: String,
    pub settings: StoreSettings,
}

impl HdfsStore {
    /// The store is the one at `base_path`, opened with the given parameters, options
    /// in force and environment.
    pub open spec fn is_opened_at(
        &self,
        base_path: &StoreUrl,
        params: &ObjectStoreParams,
        options: Map<Seq<char>, Seq<char>>,
        env: Seq<Pair>,
    ) -> bool {
        &&& self.builder_url@ == url_with_path(base_path.text(), ""@).serialization
        &&& base_path@.ends_with_path() ==> self.builder_url@ == nameservice_url(base_path@)
        &&& self.config@ == hdfs_config(options, env)
        &&& self.config_keys@ == listed_keys(self.config.pairs())
        &&& distinct_keys(self.config.pairs())
        &&& self.settings.follow_from(
            params,
            options,
            "hdfs"@,
            DEFAULT_HDFS_BLOCK_SIZE,
            false,
            DEFAULT_HDFS_IO_PARALLELISM,
        )
        &&& self.settings.store_prefix@ == store_prefix(
            directory_url(base_path.text(), base_path@),
        )
        &&& self.settings.store_prefix@ == store_prefix(base_path@)
    }

    /// What to write to the log before the client is built.
    pub fn announcement(&self) -> (r: String)
        ensures
            r@ == "Creating HDFS store url="@ + self.builder_url@ + " keys=["@ + self.config_keys@
                + "]"@,
    {
        let mut message = "Creating HDFS store url=".to_owned();
        message.append(self.builder_url.as_str());
        message.append(" keys=[");
        message.append(self.config_keys.as_str());
        message.append("]");
        message
    }

    /// The error for a client that cannot be built. `reason` says why.
    pub fn build_error(&self, reason: &str) -> (r: StoreError)
        ensures
            r is InvalidInput,
            r.text() == build_failure(self.builder_url@, reason@, self.config_keys@),
    {
        let mut message = "Failed to create HDFS store for '".to_owned();
        message.append(self.builder_url.as_str());
        message.append("': ");
        message.append(reason);
        message.append(". Keys=[");
        message.append(self.config_keys.as_str());
        message.append(
            "]. Ensure HA config (dfs.ha.namenodes.*, dfs.namenode.rpc-address.*) is set via storage_options or HADOOP_CONF_DIR.",
        );
        StoreError::invalid_input(message)
    }
}

/// Opens stores on HDFS.
#[derive(Debug)]
pub struct HdfsStoreProvider;

impl Default for HdfsStoreProvider {
    fn default() -> (r: Self)
        ensures
            r == HdfsStoreProvider,
    {
        HdfsStoreProvider
    }
}

impl ObjectStoreProvider for HdfsStoreProvider {

}

impl HdfsStoreProvider {
    /// `r` is what comes of opening the store at `base_path` with the given parameters,
    /// options in force and environment: the store, if the URL has a nameservice, or
    /// else an error that says so.
    pub open spec fn opens(
        base_path: &StoreUrl,
        params: &ObjectStoreParams,
        options: Map<Seq<char>, Seq<char>>,
        env: Seq<Pair>,
        r: Result<HdfsStore, StoreError>,
    ) -> bool {
        match r {
            Ok(store) => {
                &&& has_nameservice(base_path@.host)
                &&& store.is_opened_at(base_path, params, options, env)
            },
            Err(e) => {
                &&& !has_nameservice(base_path@.host)
                &&& e is InvalidInput
                &&& e.text() == missing_authority(base_path@.serialization)
            },
        }
    }

    /// Rejects a URL without a nameservice, such as `hdfs:///path`.
    pub fn check_authority(&self, base_path: &UrlParts) -> (r: Result<(), StoreError>)
        ensures
            match r {
                Ok(_) => has_nameservice(base_path@.host),
                Err(e) => {
                    &&& !has_nameservice(base_path@.host)
                    &&& e is InvalidInput
                    &&& e.text() == missing_authority(base_path@.serialization)
                },
            },
    {
        let named = match &base_path.host {
            Some(host) => !host.as_str().is_empty(),
            None => false,
        };
        if named {
            return Ok(());
        }
        let mut message = "HDFS URL must include a nameservice authority, got '".to_owned();
        message.append(base_path.serialization.as_str());
        message.append("'");
        Err(StoreError::invalid_input(message))
    }

    /// Settles everything about the store at `base_path` but the client itself. `reply`
    /// is what came of asking for the options in force, and `env` is the environment
    /// of the process, in the order in which it is listed.
    pub fn new_store(
        &self,
        base_path: &StoreUrl,
        params: &ObjectStoreParams,
        reply: AccessorReply,
        env: &Vec<(String, String)>,
    ) -> (r: Result<HdfsStore, StoreError>)
        requires
            has_nameservice(base_path@.host) ==> base_path@.fits_as_directory(),
        ensures
            Self::opens(base_path, params, reply.options(params), pairs_of(env@), r),
            r is Ok <==> base_path@.host is Some && base_path@.host->0.len() > 0,
            r matches Ok(store) ==> {
                &&& store.settings.store_prefix@ == base_path@.scheme + "$"@ + base_path@.authority
                &&& forall|size: usize|
                    params.block_size == Some(size) ==> store.settings.block_size == size
                &&& params.block_size is None ==> store.settings.block_size == 1024 * 1024
            },
            r matches Err(e) ==> e.text()
                == "HDFS URL must include a nameservice authority, got '"@
                + base_path@.serialization + "'"@,
    {
        if let Err(e) = self.check_authority(base_path.parts()) {
            return Err(e);
        }
        let block_size: usize = match params.block_size {
            Some(size) => size,
            None => DEFAULT_HDFS_BLOCK_SIZE,
        };
        let storage_options = reply.storage_options(params);
        proof {
            reveal_strlit("");
        }
        let builder_parts = base_path.with_path("");
        let builder_url = builder_parts.serialization;
        let mut config = env_config(env);
        pass_options(&mut config, &storage_options);
        let config_keys = list_keys(&config);
        let url = base_path.as_directory();
        let prefix = self.calculate_object_store_prefix(&url, params.storage_options());
        let store_prefix = match prefix {
            Ok(prefix) => prefix,
            Err(e) => {
                return Err(e);
            },
        };
        let settings = StoreSettings {
            scheme: "hdfs".to_owned(),
            block_size,
            use_constant_size_upload_parts: params.use_constant_size_upload_parts,
            list_is_lexically_ordered: match params.list_is_lexically_ordered {
                Some(ordered) => ordered,
                None => false,
            },
            io_parallelism: DEFAULT_HDFS_IO_PARALLELISM,
            storage_options,
            store_prefix,
        };
        Ok(HdfsStore { builder_url, config, config_keys, settings })
    }
}

/// Keys that the environment sets hold no underscore.
pub proof fn lemma_hadoop_key_has_no_underscore(key: Seq<char>)
    ensures
        hadoop_key(key) matches Some(name) ==> !name.contains('_'),
{
}

/// Storage options that start like the standard Hadoop keys decide over the
/// environment.
pub proof fn lemma_options_override_env(
    options: Map<Seq<char>, Seq<char>>,
    env: Seq<Pair>,
    key: Seq<char>,
)
    requires
        options.contains_key(key),
        is_hadoop_option(key),
    ensures
        hdfs_config(options, env).contains_key(key),
        hdfs_config(options, env)[key] == options[key],
{
}

/// What no such option sets is as the environment sets it: other storage options do
/// not reach the client.
pub proof fn lemma_env_fills_the_rest(
    options: Map<Seq<char>, Seq<char>>,
    env: Seq<Pair>,
    key: Seq<char>,
)
    requires
        !options.contains_key(key) || !is_hadoop_option(key),
    ensures
        hdfs_config(options, env).contains_key(key) == collected(hadoop_env(env)).contains_key(
            key,
        ),
        hdfs_config(options, env).contains_key(key) ==> hdfs_config(options, env)[key]
            == collected(hadoop_env(env))[key],
{
}

/// The path of the URL does not reach the client: two URLs with the same scheme and
/// authority, and neither a query nor a fragment, both open a store or both do not,
/// and the two stores have the same URL and configuration for the client and the same
/// settings.
pub proof fn lemma_path_does_not_reach_the_client(
    first: &StoreUrl,
    second: &StoreUrl,
    params: &ObjectStoreParams,
    options: Map<Seq<char>, Seq<char>>,
    env: Seq<Pair>,
    first_result: Result<HdfsStore, StoreError>,
    second_result: Result<HdfsStore, StoreError>,
)
    requires
        first@.scheme == second@.scheme,
        first@.authority == second@.authority,
        first@.host == second@.host,
        first@.ends_with_path(),
        second@.ends_with_path(),
        HdfsStoreProvider::opens(first, params, options, env, first_result),
        HdfsStoreProvider::opens(second, params, options, env, second_result),
    ensures
        first_result is Ok <==> second_result is Ok,
        first_result matches Ok(a) ==> second_result matches Ok(b) && {
            &&& a.builder_url@ == b.builder_url@
            &&& a.config@ == b.config@
            &&& a.settings.scheme@ == b.settings.scheme@
            &&& a.settings.block_size == b.settings.block_size
            &&& a.settings.use_constant_size_upload_parts
                == b.settings.use_constant_size_upload_parts
            &&& a.settings.list_is_lexically_ordered == b.settings.list_is_lexically_ordered
            &&& a.settings.io_parallelism == b.settings.io_parallelism
            &&& a.settings.storage_options@ == b.settings.storage_options@
            &&& a.settings.store_prefix@ == b.settings.store_prefix@
        },
{
}

/// A variable is recognized by the start of its name, `HDFS_`. The key that it sets is
/// what follows `hdfs_` in the lowercase name, with a dot in the place of each
/// underscore.
pub proof fn lemma_hadoop_key(key: Seq<char>, rest: Seq<char>)
    ensures
        "HDFS_"@.is_prefix_of(key) <==> hadoop_key(key) is Some,
        "HDFS_"@.is_prefix_of(key) && lowercase(key) == "hdfs_"@ + rest ==> {
            &&& hadoop_key(key)->0.len() == rest.len()
            &&& forall|i: int|
                0 <= i < rest.len() ==> (#[trigger] hadoop_key(key)->0[i]) == if rest[i] == '_' {
                    '.'
                } else {
                    rest[i]
                }
        },
{
    if lowercase(key) == "hdfs_"@ + rest {
        assert(lowercase(key).skip("hdfs_"@.len() as int) =~= rest);
    }
}

/// Every recognized variable counts, wherever it is listed: of those that set the same
/// key, the last one decides.
pub proof fn lemma_last_variable_decides(env: Seq<Pair>, i: int, name: Seq<char>)
    requires
        0 <= i < env.len(),
        hadoop_key(env[i].0) == Some(name),
        forall|j: int| i < j < env.len() ==> hadoop_key((#[trigger] env[j]).0) != Some(name),
    ensures
        collected(hadoop_env(env)).contains_key(name),
        collected(hadoop_env(env))[name] == env[i].1,
    decreases env.len(),
{
    let init = env.drop_last();
    if let Some(last) = hadoop_key(env.last().0) {
        lemma_collected_push(hadoop_env(init), (last, env.last().1));
    }
    if i < env.len() - 1 {
        assert forall|j: int| i < j < init.len() implies hadoop_key((#[trigger] init[j]).0) != Some(
            name,
        ) by {
            assert(init[j] == env[j]);
        }
        lemma_last_variable_decides(init, i, name);
        assert(env[env.len() - 1] == env.last());
    }
}

/// What the environment sets, some variable sets: the last one that sets the key.
pub proof fn lemma_variables_set_nothing_else(env: Seq<Pair>, name: Seq<char>)
    requires
        collected(hadoop_env(env)).contains_key(name),
    ensures
        exists|i: int|
            0 <= i < env.len() && hadoop_key((#[trigger] env[i]).0) == Some(name) && collected(
                hadoop_env(env),
            )[name] == env[i].1 && forall|j: int|
                i < j < env.len() ==> hadoop_key((#[trigger] env[j]).0) != Some(name),
    decreases env.len(),
{
    if env.len() > 0 {
        let init = env.drop_last();
        let last = env.len() - 1;
        if let Some(other) = hadoop_key(env.last().0) {
            lemma_collected_push(hadoop_env(init), (other, env.last().1));
        }
        if hadoop_key(env[last].0) != Some(name) {
            lemma_variables_set_nothing_else(init, name);
            let i = choose|i: int|
                0 <= i < init.len() && hadoop_key((#[trigger] init[i]).0) == Some(name)
                    && collected(hadoop_env(init))[name] == init[i].1 && forall|j: int|
                    i < j < init.len() ==> hadoop_key((#[trigger] init[j]).0) != Some(name);
            assert(env[i] == init[i]);
            assert forall|j: int| i < j < env.len() implies hadoop_key((#[trigger] env[j]).0)
                != Some(name) by {
                if j < last {
                    assert(init[j] == env[j]);
                }
            }
        }
    }
}

/// A variable that is not recognized makes no difference.
pub proof fn lemma_other_variables_are_ignored(env: Seq<Pair>, k: int)
    requires
        0 <= k < env.len(),
        hadoop_key(env[k].0) is None,
    ensures
        collected(hadoop_env(env.remove(k))) == collected(hadoop_env(env)),
        hadoop_env(env.remove(k)) == hadoop_env(env),
    decreases env.len(),
{
    let init = env.drop_last();
    if k == env.len() - 1 {
        assert(env.remove(k) =~= init);
    } else {
        lemma_other_variables_are_ignored(init, k);
        assert(env.remove(k).drop_last() =~= init.remove(k));
        assert(env.remove(k).last() == env.last());
    }
}

/// Every option whose key starts with `fs.`, `dfs.` or `hadoop.` reaches the client of
/// an opened store, whatever the environment sets.
pub proof fn lemma_hadoop_options_reach_the_client(
    base_path: &StoreUrl,
    params: &ObjectStoreParams,
    options: Map<Seq<char>, Seq<char>>,
    env: Seq<Pair>,
    store: HdfsStore,
    rest: Seq<char>,
    value: Seq<char>,
)
    requires
        HdfsStoreProvider::opens(base_path, params, options, env, Ok(store)),
    ensures
        options.contains_pair("fs."@ + rest, value) ==> store.config@.contains_pair(
            "fs."@ + rest,
            value,
        ),
        options.contains_pair("dfs."@ + rest, value) ==> store.config@.contains_pair(
            "dfs."@ + rest,
            value,
        ),
        options.contains_pair("hadoop."@ + rest, value) ==> store.config@.contains_pair(
            "hadoop."@ + rest,
            value,
        ),
{
    assert(("fs."@ + rest).subrange(0, "fs."@.len() as int) =~= "fs."@);
    assert(("dfs."@ + rest).subrange(0, "dfs."@.len() as int) =~= "dfs."@);
    assert(("hadoop."@ + rest).subrange(0, "hadoop."@.len() as int) =~= "hadoop."@);
    assert(is_hadoop_option("fs."@ + rest));
    assert(is_hadoop_option("dfs."@ + rest));
    assert(is_hadoop_option("hadoop."@ + rest));
}

/// Under any other key, and under keys that no option has, the client of an opened
/// store gets what the last variable for the key says, and nothing if there is none.
pub proof fn lemma_variables_reach_the_client(
    base_path: &StoreUrl,
    params: &ObjectStoreParams,
    options: Map<Seq<char>, Seq<char>>,
    env: Seq<Pair>,
    store: HdfsStore,
    key: Seq<char>,
)
    requires
        HdfsStoreProvider::opens(base_path, params, options, env, Ok(store)),
        !options.contains_key(key) || !"fs."@.is_prefix_of(key) && !"dfs."@.is_prefix_of(key)
            && !"hadoop."@.is_prefix_of(key),
    ensures
        forall|i: int|
            0 <= i < env.len() && hadoop_key((#[trigger] env[i]).0) == Some(key) && (forall|j: int|
                i < j < env.len() ==> hadoop_key((#[trigger] env[j]).0) != Some(key))
                ==> store.config@.contains_pair(key, env[i].1),
        (forall|i: int| 0 <= i < env.len() ==> hadoop_key((#[trigger] env[i]).0) != Some(key))
            ==> !store.config@.contains_key(key),
{
    lemma_env_fills_the_rest(options, env, key);
    assert forall|i: int|
        0 <= i < env.len() && hadoop_key((#[trigger] env[i]).0) == Some(key) && (forall|j: int|
            i < j < env.len() ==> hadoop_key((#[trigger] env[j]).0) != Some(
                key,
            )) implies store.config@.contains_pair(key, env[i].1) by {
        lemma_last_variable_decides(env, i, key);
    }
    if collected(hadoop_env(env)).contains_key(key) {
        lemma_variables_set_nothing_else(env, key);
    }
}

/// Fetched options are in force, and else those of the parameters.
pub proof fn lemma_options_in_force(reply: AccessorReply, params: &ObjectStoreParams)
    ensures
        reply matches AccessorReply::Fetched(fetched) ==> reply.options(params) == fetched@,
        reply !is Fetched && params.storage_options is Some ==> reply.options(params)
            == params.storage_options->0@,
        reply !is Fetched && params.storage_options is None ==> reply.options(params) == Map::<
            Seq<char>,
            Seq<char>,
        >::empty(),
{
}

/// The settings of an opened store are what the parameters ask for, or else 1 MiB blocks
/// and no order of listings. There are 16 requests in flight.
pub proof fn lemma_opened_settings(
    base_path: &StoreUrl,
    params: &ObjectStoreParams,
    options: Map<Seq<char>, Seq<char>>,
    env: Seq<Pair>,
    store: HdfsStore,
)
    requires
        HdfsStoreProvider::opens(base_path, params, options, env, Ok(store)),
    ensures
        forall|size: usize| params.block_size == Some(size) ==> store.settings.block_size == size,
        params.block_size is None ==> store.settings.block_size == 1024 * 1024,
        forall|ordered: bool|
            params.list_is_lexically_ordered == Some(ordered)
                ==> store.settings.list_is_lexically_ordered == ordered,
        params.list_is_lexically_ordered is None ==> !store.settings.list_is_lexically_ordered,
        store.settings.use_constant_size_upload_parts == params.use_constant_size_upload_parts,
        store.settings.io_parallelism == 16,
        store.settings.scheme@ == "hdfs"@,
        store.settings.storage_options@ == options,
        store.settings.store_prefix@ == base_path@.scheme + "$"@ + base_path@.authority,
{
}

/// The client of an opened store gets the URL without its path. Where that URL has
/// neither a query nor a fragment, it is the scheme and the authority, with a slash
/// behind them exactly for the schemes that have special rules.
pub proof fn lemma_client_url(
    base_path: &StoreUrl,
    params: &ObjectStoreParams,
    options: Map<Seq<char>, Seq<char>>,
    env: Seq<Pair>,
    store: HdfsStore,
)
    requires
        HdfsStoreProvider::opens(base_path, params, options, env, Ok(store)),
    ensures
        store.builder_url@ == url_with_path(base_path.text(), ""@).serialization,
        base_path@.ends_with_path() && (base_path@.scheme == "http"@ || base_path@.scheme
            == "https"@ || base_path@.scheme == "ws"@ || base_path@.scheme == "wss"@
            || base_path@.scheme == "ftp"@ || base_path@.scheme == "file"@)
            ==> store.builder_url@ == base_path@.scheme + "://"@ + base_path@.authority + "/"@,
        base_path@.ends_with_path() && !(base_path@.scheme == "http"@ || base_path@.scheme
            == "https"@ || base_path@.scheme == "ws"@ || base_path@.scheme == "wss"@
            || base_path@.scheme == "ftp"@ || base_path@.scheme == "file"@)
            ==> store.builder_url@ == base_path@.scheme + "://"@ + base_path@.authority,
{
    reveal_strlit("/");
    let bare = base_path@.scheme + "://"@ + base_path@.authority;
    assert("/"@ =~= seq!['/']);
    assert(bare + Seq::<char>::empty() =~= bare);
}

/// The keys of an opened store are listed one after the other, each with a comma and a
/// space before it but the first.
pub proof fn lemma_listed_keys(pairs: Seq<Pair>, pair: Pair)
    ensures
        listed_keys(Seq::<Pair>::empty()) == Seq::<char>::empty(),
        pairs.len() == 0 ==> listed_keys(pairs.push(pair)) == pair.0,
        pairs.len() > 0 ==> listed_keys(pairs.push(pair)) == listed_keys(pairs) + ", "@ + pair.0,
{
    assert(pairs.push(pair).drop_last() =~= pairs);
}

/// The keys that an opened store lists are those of its configuration, each once.
pub proof fn lemma_listed_keys_are_those_of_the_configuration(
    base_path: &StoreUrl,
    params: &ObjectStoreParams,
    options: Map<Seq<char>, Seq<char>>,
    env: Seq<Pair>,
    store: HdfsStore,
)
    requires
        HdfsStoreProvider::opens(base_path, params, options, env, Ok(store)),
    ensures
        store.config_keys@ == listed_keys(store.config.pairs()),
        store.config@ == collected(store.config.pairs()),
        forall|i: int, j: int|
            0 <= i < j < store.config.pairs().len() ==> (#[trigger] store.config.pairs()[i]).0 != (
            #[trigger] store.config.pairs()[j]).0,
{
}

/// A URL is refused exactly if its host is absent or empty, with a message that quotes
/// it.
pub proof fn lemma_refusal(
    base_path: &StoreUrl,
    params: &ObjectStoreParams,
    options: Map<Seq<char>, Seq<char>>,
    env: Seq<Pair>,
    r: Result<HdfsStore, StoreError>,
)
    requires
        HdfsStoreProvider::opens(base_path, params, options, env, r),
    ensures
        r is Err <==> base_path@.host is None || base_path@.host->0.len() == 0,
        r matches Err(e) ==> e is InvalidInput && e.text()
            == "HDFS URL must include a nameservice authority, got '"@
            + base_path@.serialization + "'"@,
{
}

/// The messages quote the URL, the reason and the keys.
pub proof fn lemma_messages(url: Seq<char>, reason: Seq<char>, keys: Seq<char>)
    ensures
        missing_authority(url) == "HDFS URL must include a nameservice authority, got '"@ + url
            + "'"@,
        build_failure(url, reason, keys) == "Failed to create HDFS store for '"@ + url + "': "@
            + reason + ". Keys=["@ + keys
            + "]. Ensure HA config (dfs.ha.namenodes.*, dfs.namenode.rpc-address.*) is set via storage_options or HADOOP_CONF_DIR."@,
{
}

/// A host names a nameservice exactly if it is there and not empty.
pub proof fn lemma_nameservice(host: Option<Seq<char>>)
    ensures
        has_nameservice(host) <==> host != None::<Seq<char>> && host != Some(Seq::<char>::empty()),
{
    if host is Some && host->0.len() == 0 {
        assert(host->0 =~= Seq::<char>::empty());
    }
}

} // verus!
