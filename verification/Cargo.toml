[package]
name = "token_resolver"
version = "0.1.0"
edition = "2021"
publish = false

[dependencies]
hex = "0.4"
futures = "0.3"
serde = { version = "1", features = ["derive"] }
serde_repr = "0.1"
serde_with = "3"
field_count = "0.1"
clickhouse = "*"
alloy = { version = "*", default-features = false, features = ["rpc-types"] }
