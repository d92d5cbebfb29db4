[package]
name = "tpu_toolkit"
version = "0.1.0"
edition = "2021"
publish = false

[dependencies]
indexmap = "=1.9.3"
rand = "=0.7.3"
derivation-path = "=0.2.0"
ed25519-dalek-bip32 = "=0.2.0"
serde = { version = "=1.0.229", features = ["derive"] }
serde_json = "=1.0.154"
serde_yaml = "=0.8.26"
thiserror = "=1.0.69"
clap = "=3.2.25"
log = "=0.4.35"
tokio = { version = "=1.54.1", features = ["rt"] }

[dev-dependencies]
rand_chacha = "=0.2.2"
