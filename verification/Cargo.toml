[package]
name = "sync_fsm"
version = "0.1.0"
edition = "2021"
publish = false

[dependencies]
ahash = "0.8"
hash32 = "0.2"
heapless = { version = "0.7", default-features = false }
log = "0.4"
thiserror = "1"
