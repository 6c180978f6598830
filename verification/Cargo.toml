[package]
name = "zarr_cli"
version = "0.1.0"
edition = "2021"
publish = false

[dependencies]
arrow = { version = "=59.3.2", default-features = false, features = ["prettyprint"] }
datafusion-common = { version = "=55.2.0", default-features = false, features = ["object_store"] }
datafusion-execution = { version = "=55.2.0", default-features = false }
object_store = { version = "=0.13.2", default-features = false, features = ["aws", "gcp", "http"] }
rustyline = "=19.0.0"
tokio = { version = "=1.54.1", features = ["macros", "rt-multi-thread", "time"] }
tracing = "=0.1.44"
tracing-subscriber = { version = "=0.3.23", features = ["env-filter"] }
url = "=2.5.8"
zarrs_object_store = "=0.6.2"
