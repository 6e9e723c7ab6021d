[package]
name = "mine_idler"
version = "0.1.0"
edition = "2021"
publish = false

[dependencies]
base64 = "0.22"
dashmap = "6"
pcg_rand = "0.13"
rand = "0.8"
rand_distr = "0.4"
scrypt = "0.11"
serde = { version = "1", features = ["derive"] }
serde_yaml = "0.9"
tokio = { version = "1", features = ["rt-multi-thread", "sync", "time", "macros"] }
uuid = { version = "1", features = ["v4"] }
