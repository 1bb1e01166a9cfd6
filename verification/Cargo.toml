[package]
name = "acrylius"
version = "0.1.0"
edition = "2021"
publish = false

[dependencies]
anyhow = "=1.0.104"
async-trait = "=0.1.92"
futures-lite = "=2.6.1"
input-linux = "=0.7.1"
minicbor = { version = "=2.3.1", features = ["std", "derive"] }
serde = { version = "=1.0.229", features = ["derive"] }
serde_json = "=1.0.154"
sha2 = "=0.10.9"
snow = "=0.10.0"
socket2 = { version = "=0.6.5", features = ["all"] }
thiserror = "=2.0.21"
tokio = { version = "=1.54.1", features = ["full"] }
tracing = "=0.1.44"
uniffi = "=0.32.2"
wl-clipboard-rs = "=0.9.5"
x25519-dalek = { version = "=2.0.1", features = ["static_secrets"] }
zbus = { version = "=5.19.0", default-features = false, features = ["tokio"] }
