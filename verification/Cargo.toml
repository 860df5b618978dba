[package]
name = "snowflake-api"
version = "0.1.0"
edition = "2021"
publish = false

[dependencies]
arrow = { version = "=60.0.0", default-features = false, features = ["ipc"] }
base64 = "=0.23.1"
bytes = "=1.12.1"
flate2 = "*"
futures = "=0.3.34"
glob = "=0.3.4"
log = "=0.4.34"
object_store = { version = "=0.14.2", features = ["aws", "azure", "gcp"] }
regex = "=1.13.1"
reqwest = { version = "=0.13.5", default-features = false, features = ["json"] }
reqwest-middleware = "=0.5.2"
rsa = "=0.9.10"
serde = { version = "=1.0.229", features = ["derive"] }
serde_json = "=1.0.154"
sha2 = "=0.10.9"
thiserror = "=2.0.21"
tokio = { version = "=1.54.1", features = ["macros", "rt-multi-thread", "sync", "time"] }
uuid = { version = "=1.29.0", features = ["v4"] }
