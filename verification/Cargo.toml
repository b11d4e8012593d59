[package]
name = "foundry-compilers"
version = "0.1.0"
edition = "2021"
publish = false

[dependencies]
alloy-primitives = "0.7"
dirs = "5"
fd-lock = "4"
fs_extra = "1"
futures-util = "0.3"
home = "0.5"
itertools = "0.12"
once_cell = "1"
semver = { version = "1", features = ["serde"] }
serde = { version = "1", features = ["derive"] }
serde_json = "1"
sha2 = "0.10"
svm-rs = { version = "0.5", default-features = false, features = ["rustls"] }
svm-rs-builds = "0.5"
tempfile = "3"
tokio = { version = "1", features = ["rt-multi-thread", "process", "io-util"] }
