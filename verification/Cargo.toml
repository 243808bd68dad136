[package]
name = "rustqueue"
version = "0.8.3"
edition = "2021"
publish = false

[dependencies]
anyhow = "=1.0.104"
axum = "=0.8.9"
bytes = "=1.12.1"
chrono = "=0.4.45"
clap = { version = "=4.6.7", features = ["derive", "env"] }
crc32c = "=0.6.9"
futures = "=0.3.34"
hex = "=0.4.3"
k8s-openapi = { version = "=0.27.1", features = ["latest"] }
kube = { version = "=3.1.0", default-features = false, features = ["client", "derive", "runtime", "rustls-tls", "ring"] }
parking_lot = "=0.12.5"
pem = "=4.0.0"
rand = "=0.8.8"
rcgen = { version = "=0.14.10", features = ["x509-parser"] }
reqwest = { version = "=0.12.28", default-features = false, features = ["json", "stream"] }
rustls = { version = "=0.23.46", default-features = false, features = ["ring", "std"] }
schemars = "=1.2.3"
serde = { version = "=1.0.229", features = ["derive"] }
serde_json = "=1.0.154"
serde_yaml = "=0.9.34"
sha2 = "=0.10.9"
thiserror = "=2.0.21"
time = { version = "=0.3.55", features = ["formatting", "parsing"] }
tokio = { version = "=1.54.1", features = ["full"] }
toml = "=0.9.12"
tracing = "=0.1.44"
tracing-subscriber = { version = "=0.3.23", features = ["env-filter", "json"] }
x509-parser = { version = "=0.18.1", features = ["verify"] }
