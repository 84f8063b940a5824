[package]
name = "telora"
version = "0.1.0"
edition = "2021"
publish = false

[dependencies]
anyhow = "1"
async-channel = "2"
clap = { version = "4", features = ["derive"] }
config = { version = "=0.13.4", default-features = false, features = ["toml"] }
dirs = "5"
dotenvy = "0.15"
env_logger = "0.11"
libsystemd = "0.7"
log = "0.4"
nix = { version = "0.29", features = ["fs", "user", "socket"] }
ringbuf = "0.3"
serde = { version = "1", features = ["derive"] }
serde_json = "1"
socket2 = "0.5"
tokio = { version = "1", features = ["full"] }
toml = "0.8"
voxora-bridge = { version = "0.6", default-features = false }
voxora-hf = "0.6"
voxora-registry = "0.6"
voxora-traits = "0.6"
wl-clipboard-rs = "0.9"

[dev-dependencies]
tempfile = "3"
