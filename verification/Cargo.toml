[package]
name = "audit"
version = "0.1.0"
edition = "2021"

[dependencies]
clap-verbosity-flag = "0.3"
colored = "1.9"
env_logger = "0.7"
glob = "0.3"
log = "0.4"
reqwest = { version = "0.10", features = ["blocking", "json"] }
serde = { version = "1.0", features = ["derive"] }
serde_json = "1.0"
structopt = "0.3"
