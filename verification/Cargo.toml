[package]
name = "pumpkin"
version = "0.1.0"
edition = "2021"
publish = false

[dependencies]
log = "0.4"
rand = "0.8"
rayon = "1"
thiserror = "2"
tokio = { version = "1", default-features = false, features = ["rt", "sync", "time"] }
uuid = "1"
