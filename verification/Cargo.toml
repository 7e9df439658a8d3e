[package]
name = "protobuf-mapper"
version = "0.1.0"
edition = "2021"
publish = false

[dependencies]
bigdecimal = "=0.4.11"
chrono = { version = "=0.4.45", default-features = false, features = ["std"] }
prost-types = "=0.14.4"
serde = { version = "=1.0.229", features = ["derive"] }
serde_json = "=1.0.154"
darling = "=0.24.1"
proc-macro2 = "=1.0.107"
quote = "=1.0.47"
syn = "=3.0.9"
thiserror = "=2.0.21"
