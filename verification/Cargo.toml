[package]
name = "cryptpilot"
version = "0.1.0"
edition = "2021"
publish = false

[dependencies]
ordermap = "=1.2.2"
indexmap = "=2.14.2"
hex = "=0.4.3"
base64 = "=0.22.1"
sha1 = "=0.10.7"
sha2 = "=0.10.9"
sm3 = "=0.4.2"
digest = "=0.10.7"
authenticode = { version = "=0.6.0", features = ["object"] }
object = "=0.39.1"
serde = { version = "=1.0.229", features = ["derive"] }
serde_json = "=1.0.154"
toml = "=0.8.23"
clap = { version = "=4.6.7", features = ["derive"] }
tokio = { version = "=1.54.1", features = ["full"] }
anyhow = "=1.0.104"
tracing = "=0.1.44"
tracing-subscriber = { version = "=0.3.23", features = ["env-filter"] }
run_script = "=0.11.2"
nix = { version = "=0.31.3", features = ["time", "mount", "ioctl", "fs"] }
libc = "=0.2.191"
glob = "=0.3.4"
tempfile = "=3.27.0"
rand = "=0.8.8"
comfy-table = "=8.0.1"
reqwest = { version = "=0.12.28", default-features = false }
serde_variant = "=0.1.3"
