//! What the object store providers share.

use vstd::prelude::*;

use crate::error::StoreError;
use crate::string_map::StringMap;
use crate::text::concat;
use crate::uri::{UrlParts, UrlView};

verus! {

/// The block size of a cloud store that does not configure one.
pub const DEFAULT_CLOUD_BLOCK_SIZE: usize = 64 * 1024;

/// How many requests a cloud store has in flight at a time.
pub const DEFAULT_CLOUD_IO_PARALLELISM: usize = 64;

/// What the caller asks of a store.
#[derive(Debug)]
pub struct ObjectStoreParams {
    pub block_size: Option<usize>,
    pub storage_options: Option<StringMap>,
    pub use_constant_size_upload_parts: bool,
    pub list_is_lexically_ordered: Option<bool>,
}

impl ObjectStoreParams {
    /// The storage options, where the absence of options means no entries.
    pub open spec fn options(&self) -> Map<Seq<char>, Seq<char>> {
        match self.storage_options {
            Some(options) => options@,
            None => Map::empty(),
        }
    }

    /// The storage options, if there are any.
    pub fn storage_options(&self) -> (r: Option<&StringMap>)
        ensures
            match r {
                Some(options) => self.storage_options == Some(*options),
                None => self.storage_options is None,
            },
    {
        match &self.storage_options {
            Some(options) => Some(options),
            None => None,
        }
    }

    /// A copy of the storage options, empty if there are none.
    pub(crate) fn options_or_empty(&self) -> (r: StringMap)
        ensures
            r@ == self.options(),
    {
        match &self.storage_options {
            Some(options) => options.clone(),
            None => StringMap::new(),
        }
    }
}

impl Default for ObjectStoreParams {
    fn default() -> (r: Self)
        ensures
            r == (ObjectStoreParams {
                block_size: None,
                storage_options: None,
                use_constant_size_upload_parts: false,
                list_is_lexically_ordered: None,
            }),
    {
        ObjectStoreParams {
            block_size: None,
            storage_options: None,
            use_constant_size_upload_parts: false,
            list_is_lexically_ordered: None,
        }
    }
}

/// What is settled about a store before its backend is built.
#[derive(Debug)]
pub struct StoreSettings {
    pub scheme: String,
    pub block_size: usize,
    pub use_constant_size_upload_parts: bool,
    pub list_is_lexically_ordered: bool,
    pub io_parallelism: usize,
    /// The options in force, from which the retry count is read.
    pub storage_options: StringMap,
    pub store_prefix: String,
}

impl StoreSettings {
    /// The settings follow from the parameters, the options in force and the
    /// defaults of the backend.
    pub open spec fn follow_from(
        &self,
        params: &ObjectStoreParams,
        options: Map<Seq<char>, Seq<char>>,
        scheme: Seq<char>,
        block_size: usize,
        ordered: bool,
        io_parallelism: usize,
    ) -> bool {
        &&& self.scheme@ == scheme
        &&& self.block_size == (match params.block_size {
            Some(size) => size,
            None => block_size,
        })
        &&& self.use_constant_size_upload_parts == params.use_constant_size_upload_parts
        &&& self.list_is_lexically_ordered == (match params.list_is_lexically_ordered {
            Some(value) => value,
            None => ordered,
        })
        &&& self.io_parallelism == io_parallelism
        &&& self.storage_options@ == options
    }
}

/// The prefix under which a store is known: its scheme and its authority.
pub open spec fn store_prefix(url: UrlView) -> Seq<char> {
    url.scheme + "$"@ + url.authority
}

/// Something that opens stores.
pub trait ObjectStoreProvider {
    /// The prefix under which the store at `url` is known.
    fn calculate_object_store_prefix(
        &self,
        url: &UrlParts,
        storage_options: Option<&StringMap>,
    ) -> (r: Result<String, StoreError>)
        ensures
            r matches Ok(prefix) && prefix@ == store_prefix(url@),
    {
        let scheme = concat(url.scheme.as_str(), "$");
        Ok(concat(scheme.as_str(), url.authority.as_str()))
    }
}

/// The storage options of the parameters are those that are given, or none.
pub proof fn lemma_given_options(params: &ObjectStoreParams)
    ensures
        params.storage_options matches Some(options) ==> params.options() == options@,
        params.storage_options is None ==> params.options() == Map::<
            Seq<char>,
            Seq<char>,
        >::empty(),
{
}

/// What the caller asks for is what is settled, and the default of the backend stands
/// exactly where the caller asks for nothing.
pub proof fn lemma_settings_are_what_was_asked(
    settings: &StoreSettings,
    params: &ObjectStoreParams,
    options: Map<Seq<char>, Seq<char>>,
    scheme: Seq<char>,
    block_size: usize,
    ordered: bool,
    io_parallelism: usize,
)
    requires
        settings.follow_from(params, options, scheme, block_size, ordered, io_parallelism),
    ensures
        forall|size: usize| params.block_size == Some(size) ==> settings.block_size == size,
        params.block_size is None ==> settings.block_size == block_size,
        forall|asked: bool|
            params.list_is_lexically_ordered == Some(asked) ==> settings.list_is_lexically_ordered
                == asked,
        params.list_is_lexically_ordered is None ==> settings.list_is_lexically_ordered == ordered,
        settings.use_constant_size_upload_parts == params.use_constant_size_upload_parts,
        settings.io_parallelism == io_parallelism,
        settings.scheme@ == scheme,
        settings.storage_options@ == options,
{
}

/// The prefix of a store is its scheme, a dollar sign and its authority.
pub proof fn lemma_store_prefix(url: UrlView)
    ensures
        store_prefix(url).len() == url.scheme.len() + 1 + url.authority.len(),
        store_prefix(url).take(url.scheme.len() as int) == url.scheme,
        store_prefix(url)[url.scheme.len() as int] == '$',
        store_prefix(url).skip(url.scheme.len() as int + 1) == url.authority,
{
    reveal_strlit("$");
    let prefix = url.scheme + "$"@ + url.authority;
    assert(prefix.take(url.scheme.len() as int) =~= url.scheme);
    assert(prefix.skip(url.scheme.len() as int + 1) =~= url.authority);
}

} // verus!
