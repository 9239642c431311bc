[package]
name = "fleet_drill"
version = "0.1.0"
edition = "2021"
publish = false

[dependencies]
chrono = { version = "0.4", features = ["serde"] }
futures = "0.3"
k8s-openapi = { version = "*", features = ["latest"] }
kube = { version = "*", features = ["runtime"] }
reqwest = { version = "0.12", default-features = false, features = ["json"] }
semver = "1"
serde = { version = "1", features = ["derive"] }
serde_json = "1"
sha2 = "0.10"
tempfile = "3"
tokio = { version = "1", features = ["full"] }
