[package]
name = "zarr_tiles"
version = "0.1.0"
edition = "2021"
publish = false

[dependencies]
async-trait = "0.1"
aws-config = { version = "1", default-features = false, features = ["rt-tokio"] }
aws-credential-types = "1"
chrono = "0.4"
humantime-serde = "1"
image = { version = "0.25", default-features = false, features = ["png"] }
moka = { version = "0.12", features = ["future"] }
ndarray = "*"
object_store = { version = "*", features = ["aws", "gcp", "azure"] }
proj = "*"
rayon = "1"
serde = { version = "1", features = ["derive"] }
serde_json = "1"
serde_with = "3"
thiserror = "2"
tilejson = "*"
tokio = { version = "1", features = ["sync"] }
tracing = "0.1"
url = "2"
zarrs = { version = "*", default-features = false, features = ["async", "filesystem", "ndarray"] }
zarrs_object_store = "*"
