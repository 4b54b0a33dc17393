//! Caches for indices. They are organized in a hierarchical manner to avoid
//! collisions.
//!
//!  GlobalIndexCache
//!     |
//!     +-> DSIndexCache (prefixed by dataset URI)
//!     |    |
//!     +----+--> Index-specific cache (prefixed by index UUID and FRI UUID)
//!
//! Cached value types include scalar/vector index instances, IVF partitions,
//! posting lists, bitmaps, and zonemap segment batches. Zonemap segments are
//! keyed by their per-segment UUID, which is regenerated on every write, so
//! consolidation and compaction naturally produce fresh keys and old entries age
//! out.

use std::borrow::Cow;
use std::ops::Deref;

use vstd::prelude::*;

use crate::text::{
    concat, decimal, decimal_string, lemma_decimal_injective, lemma_decimal_starts_with_digit,
    lemma_same_start,
};
use crate::uuid_text::{hyphenated, lemma_hyphenated_injective, Uuid};

verus! {

/// A cache that is narrowed to the entries under a list of key prefixes, the
/// outermost one first.
#[derive(Debug)]
pub struct CacheScope {
    prefixes: Vec<String>,
}

/// The texts that a list of strings stands for.
pub open spec fn texts_of(list: Seq<String>) -> Seq<Seq<char>> {
    list.map_values(|s: String| s@)
}

impl View for CacheScope {
    type V = Seq<Seq<char>>;

    closed spec fn view(&self) -> Seq<Seq<char>> {
        texts_of(self.prefixes@)
    }
}

impl CacheScope {
    /// The whole cache.
    pub fn whole() -> (r: CacheScope)
        ensures
            r@ == Seq::<Seq<char>>::empty(),
    {
        let r = CacheScope { prefixes: Vec::new() };
        assert(r@ =~= Seq::<Seq<char>>::empty());
        r
    }

    /// The part of this cache under one more key prefix.
    pub fn with_key_prefix(&self, prefix: &str) -> (r: CacheScope)
        ensures
            r@ == self@.push(prefix@),
    {
        let mut r = self.clone();
        r.prefixes.push(prefix.to_owned());
        assert(r@ =~= self@.push(prefix@));
        r
    }

    /// The key prefixes, the outermost one first.
    pub fn prefixes(&self) -> (r: &Vec<String>)
        ensures
            texts_of(r@) == self@,
    {
        &self.prefixes
    }
}

impl Clone for CacheScope {
    fn clone(&self) -> (r: Self)
        ensures
            r@ == self@,
    {
        let mut prefixes: Vec<String> = Vec::new();
        let mut i: usize = 0;
        while i < self.prefixes.len()
            invariant
                i <= self.prefixes.len(),
                prefixes@ =~= self.prefixes@.take(i as int),
            decreases self.prefixes.len() - i,
        {
            prefixes.push(self.prefixes[i].clone());
            i = i + 1;
        }
        assert(prefixes@ =~= self.prefixes@);
        CacheScope { prefixes }
    }
}

/// What an optional reference refers to.
pub open spec fn deref_opt(uuid: Option<&Uuid>) -> Option<Uuid> {
    match uuid {
        Some(uuid) => Some(*uuid),
        None => None,
    }
}

/// The key prefix of an index: its UUID, and the UUID of the fragment reuse index
/// if there is one.
pub open spec fn index_prefix(uuid: Seq<char>, fri_uuid: Option<Uuid>) -> Seq<char> {
    match fri_uuid {
        Some(fri_uuid) => uuid + "-"@ + hyphenated(fri_uuid.value),
        None => uuid,
    }
}

/// Where a cached value is found: the scope it was stored in, and its key.
///
/// A scope is the list of its prefixes. Two addresses that differ stand for two places
/// in the cache as far as the cache keeps the prefixes of a scope apart from each other
/// and from the key.
pub type Address = (Seq<Seq<char>>, Seq<char>);

/// The address of a value in a scope.
pub open spec fn address(scope: Seq<Seq<char>>, key: Seq<char>) -> Address {
    (scope, key)
}

/// The scope of a dataset within that of the global cache.
pub open spec fn dataset_scope(global: Seq<Seq<char>>, uri: Seq<char>) -> Seq<Seq<char>> {
    global.push(uri)
}

/// The scope of an index within that of its dataset.
pub open spec fn index_scope(
    dataset: Seq<Seq<char>>,
    uuid: Seq<char>,
    fri_uuid: Option<Uuid>,
) -> Seq<Seq<char>> {
    dataset.push(index_prefix(uuid, fri_uuid))
}

/// A type-safe wrapper around a cache that enforces namespaces for index data.
pub struct GlobalIndexCache(pub CacheScope);

impl GlobalIndexCache {
    /// The part of the cache that belongs to the dataset at `uri`. This prevents
    /// collisions between different datasets.
    pub fn for_dataset(&self, uri: &str) -> (r: DSIndexCache)
        ensures
            r.0@ == dataset_scope(self.0@, uri@),
            r.0@ == self.0@.push(uri@),
    {
        DSIndexCache(self.0.with_key_prefix(uri))
    }
}

impl Clone for GlobalIndexCache {
    fn clone(&self) -> (r: Self)
        ensures
            r.0@ == self.0@,
    {
        GlobalIndexCache(self.0.clone())
    }
}

impl Deref for GlobalIndexCache {
    type Target = CacheScope;

    fn deref(&self) -> (r: &CacheScope)
        ensures
            *r == self.0,
    {
        &self.0
    }
}

/// A type-safe wrapper around a cache that enforces namespaces and keys for
/// dataset-specific index data.
pub struct DSIndexCache(pub CacheScope);

impl Deref for DSIndexCache {
    type Target = CacheScope;

    fn deref(&self) -> (r: &CacheScope)
        ensures
            *r == self.0,
    {
        &self.0
    }
}

impl DSIndexCache {
    /// Create an index-specific cache with the given UUID prefix.
    pub fn for_index(&self, uuid: &str, fri_uuid: Option<&Uuid>) -> (r: CacheScope)
        ensures
            r@ == index_scope(self.0@, uuid@, deref_opt(fri_uuid)),
            fri_uuid is None ==> r@ == self.0@.push(uuid@),
            fri_uuid matches Some(fri) ==> r@ == self.0@.push(
                uuid@ + "-"@ + hyphenated(fri.value),
            ),
    {
        match fri_uuid {
            Some(fri_uuid) => {
                let start = concat(uuid, "-");
                let cache_key = concat(start.as_str(), fri_uuid.text().as_str());
                self.0.with_key_prefix(cache_key.as_str())
            },
            None => self.0.with_key_prefix(uuid),
        }
    }
}

/// A key for type-safe cache access.
pub trait CacheKey {
    /// The text of the key.
    spec fn key_text(&self) -> Seq<char>;

    /// The name of the type of the values.
    spec fn type_text() -> Seq<char>;

    /// The text of the key.
    fn key(&self) -> (r: Cow<'_, str>)
        ensures
            r@ == self.key_text(),
    ;

    /// The name of the type of the values.
    fn value_type_name() -> (r: &'static str)
        ensures
            r@ == Self::type_text(),
    ;
}

/// Cache key for a fragment reuse index.
#[derive(Debug)]
pub struct FragReuseIndexKey<'a> {
    pub uuid: &'a str,
}

impl<'a> CacheKey for FragReuseIndexKey<'a> {
    open spec fn key_text(&self) -> Seq<char> {
        "frag_reuse/"@ + self.uuid@
    }

    open spec fn type_text() -> Seq<char> {
        "FragReuseIndex"@
    }

    fn key(&self) -> (r: Cow<'_, str>) {
        Cow::Owned(concat("frag_reuse/", self.uuid))
    }

    fn value_type_name() -> (r: &'static str) {
        "FragReuseIndex"
    }
}

/// Which codec turns cached values into bytes.
#[derive(Clone, Copy, Debug, PartialEq, Eq, Structural)]
pub enum CacheCodec {
    /// The codec for lists of index metadata.
    IndexMetadata,
}

/// Cache key for the index metadata of one dataset version.
#[derive(Debug)]
pub struct IndexMetadataKey {
    pub version: u64,
}

impl CacheKey for IndexMetadataKey {
    open spec fn key_text(&self) -> Seq<char> {
        decimal(self.version as nat)
    }

    open spec fn type_text() -> Seq<char> {
        "Vec<IndexMetadata>"@
    }

    fn key(&self) -> (r: Cow<'_, str>) {
        Cow::Owned(decimal_string(self.version))
    }

    fn value_type_name() -> (r: &'static str) {
        "Vec<IndexMetadata>"
    }
}

impl IndexMetadataKey {
    /// The codec for the values under such a key.
    pub fn codec() -> (r: Option<CacheCodec>)
        ensures
            r == Some(CacheCodec::IndexMetadata),
    {
        Some(CacheCodec::IndexMetadata)
    }
}

/// Cache key for scalar index details
///
/// Typically we don't use the cache for scalar index details because they are stored
/// in the manifest and readily available.  However, old versions of Lance didn't store
/// details in the manifest, and we have to perform an expensive inference process to determine
/// what they are.  These we cache.
#[derive(Debug)]
pub struct ScalarIndexDetailsKey<'a> {
    pub uuid: &'a str,
}

impl<'a> CacheKey for ScalarIndexDetailsKey<'a> {
    open spec fn key_text(&self) -> Seq<char> {
        "type/"@ + self.uuid@
    }

    open spec fn type_text() -> Seq<char> {
        "ScalarIndexDetails"@
    }

    fn key(&self) -> (r: Cow<'_, str>) {
        Cow::Owned(concat("type/", self.uuid))
    }

    fn value_type_name() -> (r: &'static str) {
        "ScalarIndexDetails"
    }
}

/// Cache key for one zonemap index segment, identified by its UUID.
///
/// Scoped under `DSIndexCache` (dataset URI prefix), so the same UUID across
/// different datasets does not collide.
#[derive(Debug)]
pub struct ZoneMapStatsKey<'a> {
    pub uuid: &'a str,
}

impl<'a> CacheKey for ZoneMapStatsKey<'a> {
    open spec fn key_text(&self) -> Seq<char> {
        "zonemap_stats/"@ + self.uuid@
    }

    open spec fn type_text() -> Seq<char> {
        "ZoneMapStatsBatches"@
    }

    fn key(&self) -> (r: Cow<'_, str>) {
        Cow::Owned(concat("zonemap_stats/", self.uuid))
    }

    fn value_type_name() -> (r: &'static str) {
        "ZoneMapStatsBatches"
    }
}

/// Values of different datasets never share an address, whatever their keys are. They
/// do not collide as far as the cache keeps its prefixes apart.
pub proof fn lemma_datasets_do_not_collide(
    global: Seq<Seq<char>>,
    uri_a: Seq<char>,
    key_a: Seq<char>,
    uri_b: Seq<char>,
    key_b: Seq<char>,
)
    requires
        uri_a != uri_b,
    ensures
        address(dataset_scope(global, uri_a), key_a) != address(
            dataset_scope(global, uri_b),
            key_b,
        ),
{
    assert(dataset_scope(global, uri_a).last() != dataset_scope(global, uri_b).last());
}

/// Two indices have the same key prefix exactly if they are the same index with the
/// same fragment reuse index, or if one has no fragment reuse index and the text of
/// its UUID is the whole prefix of the other.
pub proof fn lemma_index_prefix_collisions(
    uuid_a: Seq<char>,
    fri_a: Option<Uuid>,
    uuid_b: Seq<char>,
    fri_b: Option<Uuid>,
)
    ensures
        index_prefix(uuid_a, fri_a) == index_prefix(uuid_b, fri_b) <==> {
            ||| uuid_a == uuid_b && fri_a == fri_b
            ||| fri_a is Some && fri_b is None && uuid_b == index_prefix(uuid_a, fri_a)
            ||| fri_a is None && fri_b is Some && uuid_a == index_prefix(uuid_b, fri_b)
        },
{
    if fri_a is Some && fri_b is Some && index_prefix(uuid_a, fri_a) == index_prefix(
        uuid_b,
        fri_b,
    ) {
        let a = fri_a->0.value;
        let b = fri_b->0.value;
        let whole_a = uuid_a + "-"@ + hyphenated(a);
        let whole_b = uuid_b + "-"@ + hyphenated(b);
        assert(whole_a.len() == whole_b.len());
        assert(whole_a.skip(whole_a.len() - 36) =~= hyphenated(a));
        assert(whole_b.skip(whole_b.len() - 36) =~= hyphenated(b));
        lemma_hyphenated_injective(a, b);
        assert(whole_a.take(uuid_a.len() as int) =~= uuid_a);
        assert(whole_b.take(uuid_b.len() as int) =~= uuid_b);
        assert(uuid_a =~= uuid_b);
    }
}

/// Values of different indices of a dataset never share an address, unless one
/// index has no fragment reuse index and the text of its UUID is the whole prefix of
/// the other. They do not collide as far as the cache keeps its prefixes apart.
pub proof fn lemma_indices_do_not_collide(
    dataset: Seq<Seq<char>>,
    uuid_a: Seq<char>,
    fri_a: Option<Uuid>,
    key_a: Seq<char>,
    uuid_b: Seq<char>,
    fri_b: Option<Uuid>,
    key_b: Seq<char>,
)
    requires
        uuid_a != uuid_b || fri_a != fri_b,
        fri_a is Some && fri_b is None ==> uuid_b != index_prefix(uuid_a, fri_a),
        fri_a is None && fri_b is Some ==> uuid_a != index_prefix(uuid_b, fri_b),
    ensures
        address(index_scope(dataset, uuid_a, fri_a), key_a) != address(
            index_scope(dataset, uuid_b, fri_b),
            key_b,
        ),
{
    lemma_index_prefix_collisions(uuid_a, fri_a, uuid_b, fri_b);
    assert(index_scope(dataset, uuid_a, fri_a).last() != index_scope(
        dataset,
        uuid_b,
        fri_b,
    ).last());
}

/// Values of indices of different datasets never share an address, nor do a value
/// of an index and one of a dataset itself. They do not collide as far as the cache
/// keeps its prefixes apart.
pub proof fn lemma_levels_do_not_collide(
    global: Seq<Seq<char>>,
    uri_a: Seq<char>,
    uuid_a: Seq<char>,
    fri_a: Option<Uuid>,
    key_a: Seq<char>,
    uri_b: Seq<char>,
    uuid_b: Seq<char>,
    fri_b: Option<Uuid>,
    key_b: Seq<char>,
)
    ensures
        uri_a != uri_b ==> address(
            index_scope(dataset_scope(global, uri_a), uuid_a, fri_a),
            key_a,
        ) != address(index_scope(dataset_scope(global, uri_b), uuid_b, fri_b), key_b),
        address(index_scope(dataset_scope(global, uri_a), uuid_a, fri_a), key_a) != address(
            dataset_scope(global, uri_b),
            key_b,
        ),
{
    let a = index_scope(dataset_scope(global, uri_a), uuid_a, fri_a);
    let b = index_scope(dataset_scope(global, uri_b), uuid_b, fri_b);
    assert(a[global.len() as int] == uri_a);
    assert(b[global.len() as int] == uri_b);
    assert(a.len() != dataset_scope(global, uri_b).len());
}

/// Keys of different kinds never have the same text.
pub proof fn lemma_kinds_of_keys_do_not_collide(
    frag_reuse: FragReuseIndexKey,
    metadata: IndexMetadataKey,
    details: ScalarIndexDetailsKey,
    zonemap: ZoneMapStatsKey,
)
    ensures
        frag_reuse.key_text() != metadata.key_text(),
        frag_reuse.key_text() != details.key_text(),
        frag_reuse.key_text() != zonemap.key_text(),
        metadata.key_text() != details.key_text(),
        metadata.key_text() != zonemap.key_text(),
        details.key_text() != zonemap.key_text(),
{
    reveal_strlit("frag_reuse/");
    reveal_strlit("type/");
    reveal_strlit("zonemap_stats/");
    lemma_decimal_starts_with_digit(metadata.version as nat);
    assert(frag_reuse.key_text()[0] == 'f');
    assert(details.key_text()[0] == 't');
    assert(zonemap.key_text()[0] == 'z');
}

/// Keys of fragment reuse indices with different UUIDs have different texts.
pub proof fn lemma_frag_reuse_keys_differ(a: FragReuseIndexKey, b: FragReuseIndexKey)
    requires
        a.uuid@ != b.uuid@,
    ensures
        a.key_text() != b.key_text(),
{
    if a.key_text() == b.key_text() {
        lemma_same_start("frag_reuse/"@, a.uuid@, b.uuid@);
    }
}

/// Keys of index metadata of different versions have different texts.
pub proof fn lemma_metadata_keys_differ(a: IndexMetadataKey, b: IndexMetadataKey)
    requires
        a.version != b.version,
    ensures
        a.key_text() != b.key_text(),
{
    if a.key_text() == b.key_text() {
        lemma_decimal_injective(a.version as nat, b.version as nat);
    }
}

/// Keys of scalar index details with different UUIDs have different texts.
pub proof fn lemma_details_keys_differ(a: ScalarIndexDetailsKey, b: ScalarIndexDetailsKey)
    requires
        a.uuid@ != b.uuid@,
    ensures
        a.key_text() != b.key_text(),
{
    if a.key_text() == b.key_text() {
        lemma_same_start("type/"@, a.uuid@, b.uuid@);
    }
}

/// Keys of zonemap segments with different UUIDs have different texts.
pub proof fn lemma_zonemap_keys_differ(a: ZoneMapStatsKey, b: ZoneMapStatsKey)
    requires
        a.uuid@ != b.uuid@,
    ensures
        a.key_text() != b.key_text(),
{
    if a.key_text() == b.key_text() {
        lemma_same_start("zonemap_stats/"@, a.uuid@, b.uuid@);
    }
}

/// The kinds of keys name different types of values.
pub proof fn lemma_value_types_differ()
    ensures
        FragReuseIndexKey::type_text() != IndexMetadataKey::type_text(),
        FragReuseIndexKey::type_text() != ScalarIndexDetailsKey::type_text(),
        FragReuseIndexKey::type_text() != ZoneMapStatsKey::type_text(),
        IndexMetadataKey::type_text() != ScalarIndexDetailsKey::type_text(),
        IndexMetadataKey::type_text() != ZoneMapStatsKey::type_text(),
        ScalarIndexDetailsKey::type_text() != ZoneMapStatsKey::type_text(),
{
    reveal_strlit("FragReuseIndex");
    reveal_strlit("Vec<IndexMetadata>");
    reveal_strlit("ScalarIndexDetails");
    reveal_strlit("ZoneMapStatsBatches");
    assert("FragReuseIndex"@[0] == 'F');
    assert("Vec<IndexMetadata>"@[0] == 'V');
    assert("ScalarIndexDetails"@[0] == 'S');
    assert("ZoneMapStatsBatches"@[0] == 'Z');
}

/// A list of strings stands for as many texts, in the same order.
pub proof fn lemma_texts_of(list: Seq<String>, i: int)
    requires
        0 <= i < list.len(),
    ensures
        texts_of(list).len() == list.len(),
        texts_of(list)[i] == list[i]@,
{
}

/// The scope of an index lies within that of its dataset, which lies within that of the
/// global cache: each adds one prefix behind those before.
pub proof fn lemma_scopes_are_nested(
    global: Seq<Seq<char>>,
    uri: Seq<char>,
    uuid: Seq<char>,
    fri_uuid: Option<Uuid>,
)
    ensures
        dataset_scope(global, uri).drop_last() == global,
        dataset_scope(global, uri).last() == uri,
        dataset_scope(global, uri).len() == global.len() + 1,
        index_scope(dataset_scope(global, uri), uuid, fri_uuid).drop_last() == dataset_scope(
            global,
            uri,
        ),
        index_scope(dataset_scope(global, uri), uuid, fri_uuid).last() == index_prefix(
            uuid,
            fri_uuid,
        ),
        index_scope(dataset_scope(global, uri), uuid, fri_uuid).len() == global.len() + 2,
{
    let dataset = dataset_scope(global, uri);
    assert(dataset.drop_last() =~= global);
    assert(index_scope(dataset, uuid, fri_uuid).drop_last() =~= dataset);
}

/// The prefix of an index is its UUID, alone or with a hyphen and the UUID of the
/// fragment reuse index behind it.
pub proof fn lemma_index_prefix(uuid: Seq<char>, fri_uuid: Option<&Uuid>)
    ensures
        fri_uuid is None ==> index_prefix(uuid, deref_opt(fri_uuid)) == uuid,
        fri_uuid matches Some(fri) ==> index_prefix(uuid, deref_opt(fri_uuid)) == uuid + "-"@
            + hyphenated(fri.value),
{
}

/// An address is told by its scope and its key, and tells both.
pub proof fn lemma_address(
    scope_a: Seq<Seq<char>>,
    key_a: Seq<char>,
    scope_b: Seq<Seq<char>>,
    key_b: Seq<char>,
)
    ensures
        address(scope_a, key_a) == address(scope_b, key_b) <==> scope_a == scope_b && key_a
            == key_b,
{
}

/// The keys of UUIDs are the kind, a slash and the UUID, and those of index metadata
/// are the version in decimal digits.
pub proof fn lemma_key_texts(
    frag_reuse: FragReuseIndexKey,
    metadata: IndexMetadataKey,
    details: ScalarIndexDetailsKey,
    zonemap: ZoneMapStatsKey,
)
    ensures
        frag_reuse.key_text() == "frag_reuse/"@ + frag_reuse.uuid@,
        metadata.key_text() == decimal(metadata.version as nat),
        details.key_text() == "type/"@ + details.uuid@,
        zonemap.key_text() == "zonemap_stats/"@ + zonemap.uuid@,
{
}

/// Each kind of key names the type of its values.
pub proof fn lemma_value_types()
    ensures
        FragReuseIndexKey::type_text() == "FragReuseIndex"@,
        IndexMetadataKey::type_text() == "Vec<IndexMetadata>"@,
        ScalarIndexDetailsKey::type_text() == "ScalarIndexDetails"@,
        ZoneMapStatsKey::type_text() == "ZoneMapStatsBatches"@,
{
}

} // verus!
