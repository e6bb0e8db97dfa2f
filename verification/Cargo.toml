[package]
name = "amux"
version = "0.1.0"
edition = "2021"
rust-version = "1.95"
publish = false

[dependencies]
agent-client-protocol = { version = "=5.0.0", features = ["unstable_protocol_v2"] }
alacritty_terminal = { version = "=0.26.0", default-features = false }
base64 = "=0.22.1"
clap = { version = "=4.6.7", features = ["derive"] }
futures-util = "=0.3.34"
gix = { version = "=0.90.0", default-features = false, features = ["status", "sha1"] }
jiff = "=0.2.39"
libc = "=0.2.191"
log = "=0.4.35"
logforth = { version = "=0.30.1", features = ["starter-log", "append-file"] }
parking_lot = "=0.12.5"
percent-encoding = "=2.3.2"
portable-pty = "=0.9.0"
process-wrap = { version = "=10.0.1", features = ["tokio1"] }
reqwest = { version = "=0.13.5", default-features = false, features = ["json", "stream"] }
rig-agent = { version = "=0.41.0", default-features = false }
rig-core = { version = "=0.41.0", default-features = false }
serde = { version = "=1.0.229", features = ["derive"] }
serde_json = "=1.0.154"
tokio = { version = "=1.54.1", features = ["full"] }
tokio-tungstenite = "=0.30.0"
uuid = { version = "=1.29.0", features = ["v4"] }

[dev-dependencies]
tempfile = "=3.27.0"
