[package]
name = "ddns"
version = "0.1.0"
edition = "2021"
publish = false

[dependencies]
anyhow = "1"
async-trait = "0.1"
cloudflare = { version = "0.9", default-features = false, features = ["rustls-tls"] }
futures-channel = "0.3"
futures-util = "0.3"
http = "0.2"
itertools = "0.10"
k8s-openapi = { version = "0.13", default-features = false, features = ["v1_22"] }
kube = { version = "0.65", default-features = false, features = ["client", "rustls-tls", "derive", "runtime"] }
opentelemetry = "0.16"
opentelemetry-jaeger = "0.15"
schemars = "0.8"
serde = { version = "1", features = ["derive"] }
serde_json = "1"
tap = "1"
thiserror = "1"
tokio = { version = "1", features = ["rt", "macros", "time", "sync"] }
tracing = "0.1"
tracing-opentelemetry = "0.16"
tracing-subscriber = { version = "0.3", features = ["env-filter"] }
