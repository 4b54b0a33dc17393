//! Verified building blocks around Lance datasets: the settings with which object
//! stores on BOS and HDFS are opened, the namespaces and keys of index caches, the
//! lookups that fill the cache of JNI handles, and data for measurements.

pub mod bos;
pub mod cached_values;
pub mod decimal128;
pub mod error;
pub mod hdfs;
pub mod index_caches;
pub mod jni_cache;
pub mod store;
pub mod string_map;
pub mod text;
pub mod uri;
pub mod uuid_text;
