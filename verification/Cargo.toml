[package]
name = "webpexer"
version = "0.1.0"
edition = "2021"
publish = false

[dependencies]
encoding_rs = "=0.8.44"
chardetng = "=0.1.17"
csv = "=1.4.0"
quick-xml = "=0.37.5"
chrono = "=0.4.45"
tokio-util = "=0.7.20"
serde = { version = "=1.0.229", features = ["derive"] }
serde_json = { version = "=1.0.154", features = ["float_roundtrip", "unbounded_depth"] }
serde_yaml = "=0.9.34"
toml = "=0.8.23"
uuid = { version = "=1.29.0", features = ["v4"] }
image = { version = "=0.25.10", default-features = false, features = ["png", "jpeg", "webp", "gif", "bmp", "tiff", "ico"] }
tokio = { version = "=1.54.1", features = ["rt-multi-thread", "macros"] }
libc = "=0.2.191"
