[package]
name = "clipnotex"
version = "0.1.0"
edition = "2021"
publish = false

[dependencies]
serde = { version = "=1.0.229", features = ["derive"] }
serde_json = "=1.0.154"
sqlformat = "=0.2.6"
chacha20poly1305 = "=0.10.1"
rand = "=0.8.8"
chrono = "=0.4.45"
blake3 = "=1.8.7"
ulid = "=1.2.1"
image = { version = "=0.25.10", default-features = false, features = ["png", "bmp", "jpeg"] }
redb = "=2.6.4"
bincode = "=1.3.3"
keyring = { version = "=2.3.3", default-features = false }
tokio = { version = "=1.54.1", features = ["rt-multi-thread", "sync", "time", "macros"] }
tracing = "=0.1.44"
parking_lot = "=0.12.5"
arc-swap = "=1.9.3"
once_cell = "=1.21.4"
async-trait = "=0.1.92"
