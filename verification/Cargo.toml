[package]
name = "rsky-blobstore"
version = "0.1.0"
edition = "2021"
publish = false

[dependencies]
anyhow = "1"
aws-config = { version = "1", default-features = false }
bytes = "1"
futures = "0.3"
cid = "0.11"
opendal = { version = "0.53", features = ["services-fs", "services-s3"] }
rand = "0.8"
thiserror = "1"

[dev-dependencies]
sha2 = "0.10"
tempfile = "3"
tokio = { version = "1", features = ["rt"] }
