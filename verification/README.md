# lance_support

Building blocks around Lance datasets, written in Rust and verified with Verus.

- `src/bos.rs`, `src/hdfs.rs`: everything about a store on BOS or HDFS that is
  settled before its client is built, from the URL, the parameters and the
  environment. `src/store.rs` holds what the two share, `src/uri.rs` the URLs,
  `src/string_map.rs` the maps of options, `src/error.rs` the errors.
- `src/index_caches.rs`, `src/cached_values.rs`: the namespaces and keys of index
  caches, with proofs that they keep entries apart, and the sizes of cached values.
  `src/uuid_text.rs` holds UUIDs and their texts.
- `src/jni_cache.rs`: which classes and methods are looked up in a Java virtual
  machine, in which order, and where the results go.
- `src/decimal128.rs`: pseudo-random decimals of a chosen bit width.
- `src/text.rs`: operations on strings.
- `app/`: the clients, the virtual machine and the cache of the session.
- `tests/`: tests that run the library together with the crates it calls.
