[package]
name = "lance_support"
version = "0.1.0"
edition = "2021"
publish = false

[dependencies]
arrow-array = { version = "*", default-features = false }
async-trait = "0.1"
deepsize = "0.2"
hdfs-native-object-store = "*"
jni = "0.21"
log = "0.4"
object_store = { version = "*", default-features = false }
object_store_opendal = "*"
opendal = { version = "*", default-features = false, features = ["services-s3"] }
prost-types = "*"
regex = "1"
url = "2"
uuid = "1"
