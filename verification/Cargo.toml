[package]
name = "rsrpc"
version = "0.1.0"
edition = "2021"
publish = false

[dependencies]
anyhow = "1"
async-trait = "0.1"
axum = { version = "0.7", default-features = false, features = ["json", "query", "tokio", "http1"] }
bytes = "1"
futures-core = "0.3"
http = "1"
postcard = { version = "1", features = ["alloc"] }
proc-macro2 = "1"
quote = "1"
reqwest = { version = "0.12", default-features = false, features = ["json"] }
serde = { version = "1", features = ["derive"] }
syn = { version = "2", features = ["full"] }
tokio = { version = "1", features = ["net", "io-util", "sync", "rt"] }
tracing = "0.1"
