[package]
name = "sqlx_data_parser"
version = "0.1.0"
edition = "2021"
publish = false

[dependencies]
sqlparser = "=0.60.0"
moka = { version = "=0.12.16", features = ["sync"] }
dashmap = "=6.2.1"
ahash = "=0.8.12"
syn = { version = "=2.0.119", features = ["full"] }
proc-macro2 = "=1.0.107"
thiserror = "=2.0.21"
