[package]
name = "corro_types"
version = "0.1.0"
edition = "2021"
publish = false

[dependencies]
indexmap = "=2.14.2"
enquote = "=1.1.0"
sqlite3-parser = "=0.12.0"
rusqlite = { version = "=0.41.1", features = ["bundled", "vtab"] }
speedy = "=0.8.7"
tokio = { version = "=1.54.1", features = ["sync", "signal", "rt", "macros"] }
tokio-util = "=0.7.20"
rcgen = { version = "=0.14.10", default-features = false, features = ["ring", "pem", "x509-parser"] }
time = "=0.3.55"
uuid = { version = "=1.29.0", features = ["v4"] }
parking_lot = "=0.12.5"
lock_api = "=0.4.14"
thiserror = "=1.0.69"
futures = "=0.3.34"
camino = "=1.2.6"
