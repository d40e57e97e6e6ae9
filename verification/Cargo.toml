[package]
name = "av_mesh_node"
version = "0.1.0"
edition = "2021"
publish = false

[dependencies]
anyhow = "1"
async-trait = "0.1"
bytes = "=1.12.1"
clap = { version = "4", features = ["derive", "env"] }
discovery = "=0.1.5"
futures-util = "0.3"
h3-quinn = { version = "=0.0.10", features = ["datagram"] }
h3-webtransport = "=0.1.2"
http = "=1.5.0"
hyper = { version = "=1.12.0", features = ["http1", "http2", "server"] }
hyper-util = { version = "=0.1.21", features = ["tokio"] }
linode = "=0.0.2"
media-object = "=0.1.1"
playlists = { version = "=0.1.6", features = ["mesh"] }
raptorq-datagram-fec = "=0.1.6"
raptorq-fec-transport = "=0.1.4"
relay-session = "=0.1.1"
serde = { version = "1", features = ["derive"] }
serde_json = "1"
tcp-changes = "=0.1.0"
tokio = { version = "1", features = ["full"] }
tokio-tungstenite = "=0.30.0"
tracing = "0.1"
tracing-subscriber = { version = "0.3", features = ["env-filter"] }
