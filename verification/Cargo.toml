[package]
name = "server_naive"
version = "0.1.0"
edition = "2021"
publish = false

[dependencies]
anyhow = "1"
async-trait = "0.1"
base64 = "=0.22.1"
bytes = "=1.12.1"
clap = { version = "4", features = ["derive", "env"] }
dashmap = "=6.2.1"
futures-util = "0.3"
h2 = "=0.4.20"
h3 = "=0.0.8"
h3-quinn = "=0.0.10"
http = "1"
humantime = "=2.4.0"
libc = "0.2"
pingora = { version = "0.8", default-features = false, features = ["proxy", "rustls"] }
quinn = { version = "=0.11.12", default-features = false, features = ["runtime-tokio", "rustls-ring"] }
rustls = { version = "=0.23.46", default-features = false, features = ["std", "ring", "tls12"] }
rustls-pemfile = "=2.2.0"
scopeguard = "1"
serde = { version = "1", features = ["derive"] }
serde_json = "1"
serde_yaml = "0.9"
socket2 = { version = "=0.6.5", features = ["all"] }
thiserror = "2"
tikv-jemallocator = "0.6"
tokio = { version = "=1.54.1", features = ["full"] }
tokio-rustls = { version = "=0.26.6", default-features = false, features = ["ring", "tls12"] }
tokio-util = "=0.7.20"
