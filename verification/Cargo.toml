[package]
name = "gen_rust_project_lib"
version = "0.1.0"
edition = "2021"
publish = false

[dependencies]
anyhow = "1"
camino = "1"
clap = { version = "4", features = ["derive", "env"] }
env_logger = "*"
log = "0.4"
runfiles = "*"
serde = { version = "1", features = ["derive"] }
serde_json = "1"
