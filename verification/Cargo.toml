[package]
name = "snowland"
version = "0.1.0"
edition = "2021"
publish = false

[dependencies]
bincode = { version = "=2.0.1", features = ["serde"] }
serde = { version = "=1.0.229", features = ["derive"] }
serde_json = "=1.0.154"
thiserror = "=1.0.69"
log = "=0.4.35"
libc = "=0.2.191"
chrono = "=0.4.45"
mio = { version = "=0.8.11", features = ["os-poll", "net", "os-ext"] }
