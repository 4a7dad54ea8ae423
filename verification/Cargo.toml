[package]
name = "fhirpath_runner"
version = "0.1.0"
edition = "2021"
publish = false

[dependencies]
anyhow = "*"
async-trait = "*"
chrono = "*"
clap = { version = "*", features = ["derive"] }
futures = "*"
glob = "*"
serde = { version = "*", features = ["derive"] }
serde_json = "*"
sysinfo = "*"
tokio = { version = "*", features = ["full"] }
uuid = { version = "*", features = ["v4"] }
