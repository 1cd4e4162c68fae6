[package]
name = "warpsolo"
version = "0.1.0"
edition = "2021"
publish = false

[dependencies]
anyhow = "=1.0.104"
async-stream = "=0.3.6"
axum = { version = "=0.8.9", features = ["ws"] }
base64 = "=0.22.1"
chrono = "=0.4.45"
futures-util = "=0.3.34"
genai = "=0.7.2"
gethostname = "=1.1.0"
libc = "=0.2.191"
log = "=0.4.35"
mdns-sd = "=0.21.7"
pathfinder_color = "=0.5.0"
prost = "=0.14.4"
prost-types = "=0.14.4"
regex = "=1.13.1"
reqwest = { version = "=0.12.28", default-features = false, features = ["json", "stream"] }
serde = { version = "=1.0.229", features = ["derive"] }
serde_json = { version = "=1.0.154", features = ["preserve_order"] }
tokio = { version = "=1.54.1", features = ["full"] }
toml = "=0.8.23"
unicode-width = "=0.2.3"
uuid = { version = "=1.29.0", features = ["v4"] }
vte = "=0.13.1"
walkdir = "=2.5.0"
