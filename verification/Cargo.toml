[package]
name = "kube_workload"
version = "0.1.0"
edition = "2021"
publish = false

[dependencies]
chrono = "*"
kube = { version = "*", default-features = false, features = ["client", "rustls-tls"] }
k8s-openapi = { version = "*", features = ["latest"] }
serde_json = "*"
