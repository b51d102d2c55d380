[package]
name = "simdjson_schema"
version = "0.1.0"
edition = "2021"
publish = false

[dependencies]
url = "=1.7.2"
uuid = { version = "=0.8.2", features = ["v4"] }
hashbrown = "=0.5.0"
chrono = { version = "=0.4.45", default-features = false, features = ["std"] }
simd-json = "=0.18.1"
regex = "1"
