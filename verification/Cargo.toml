[package]
name = "rustylens"
version = "0.1.0"
edition = "2021"
publish = false

[dependencies]
rusqlite = { version = "=0.40.2", features = ["bundled"] }
uuid = { version = "=1.29.0", features = ["v4"] }
serde = { version = "=1.0.229", features = ["derive"] }
serde_json = "=1.0.154"
serde_yaml = "=0.9.34"
kube = { version = "=3.1.0", default-features = false, features = ["config", "client", "runtime"] }
k8s-openapi = { version = "=0.27.1", features = ["latest"] }
chrono = "=0.4.45"
dirs = "=7.0.0"
futures = "=0.3.34"
notify = "=8.2.0"

[dev-dependencies]
tempfile = "=3.27.0"
