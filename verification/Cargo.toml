[package]
name = "rust_samples"
version = "0.1.0"
edition = "2021"
publish = false

[dependencies]
regex = "1"
uuid = { version = "1", features = ["v4"] }
time = "0.1"
serde = { version = "1", features = ["derive"] }
serde_derive = "1"
serde_json = "1"
rand = "0.8"
markdown = "0.3"
docopt = "1"
futures = "0.1"
futures-cpupool = "0.1"
hyper = "0.11"
tokio-core = "0.1"
tokio-io = "0.1"
iron = "0.6"
router = "0.6"
params = "0.8"
actix-web = { version = "0.7", default-features = false }
env_logger = "0.9"
log = "0.4"
