[package]
name = "connectrpc"
version = "0.1.0"
edition = "2021"
publish = false

[dependencies]
async-compression = { version = "0.4", features = ["gzip", "tokio", "zstd"] }
axum = { version = "0.8", default-features = false, features = ["http1", "tokio"] }
base64 = "0.22"
buffa = "*"
bytes = "1"
flate2 = { version = "1", default-features = false, features = ["zlib-rs"] }
futures = "0.3"
http = "1"
http-body = "1"
http-body-util = "0.1"
hyper = { version = "1", features = ["client", "http1", "http2"] }
hyper-rustls = { version = "0.27", default-features = false, features = ["http1", "http2"] }
hyper-util = { version = "0.1", features = ["client-legacy", "http1", "http2", "tokio"] }
percent-encoding = "2"
pin-project = "1"
rustls = { version = "0.23", default-features = false, features = ["std"] }
serde = { version = "1", features = ["derive"] }
serde_json = "1"
sync_wrapper = "1"
tokio = { version = "1", features = ["io-util", "macros", "net", "rt", "sync", "time"] }
tokio-util = { version = "0.7", features = ["codec"] }
tower = { version = "0.5", features = ["util"] }
tracing = "0.1"
zstd = "0.13"

[dev-dependencies]
buffa-types = "*"
