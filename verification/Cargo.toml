[package]
name = "kubecove"
version = "0.1.0"
edition = "2021"
publish = false

[dependencies]
chrono = "0.4"
futures-util = { version = "0.3", features = ["io", "sink"] }
k8s-openapi = { version = "*", features = ["latest"] }
kube = { version = "*", features = ["ws"] }
serde = { version = "1", features = ["derive"] }
serde_json = "1"
thiserror = "2"
tokio = { version = "1", features = ["sync", "rt", "macros", "io-util"] }
