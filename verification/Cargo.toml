[package]
name = "proto-service"
version = "0.1.0"
edition = "2021"
publish = false

[dependencies]
bytes = "=1.12.1"
futures-channel = { version = "=0.3.34", features = ["sink"] }
futures-core = "=0.3.34"
futures-sink = "=0.3.34"
futures-util = { version = "=0.3.34", features = ["sink"] }
tokio = { version = "=1.54.1", features = ["rt"] }
prost-build = "=0.14.4"
quote = "=1.0.47"
proc-macro2 = "=1.0.107"
syn = { version = "=2.0.119", features = ["full"] }
prettyplease = "=0.2.37"
manyhow = "=0.11.4"
thiserror = "=2.0.21"
