[package]
name = "larmindon"
version = "0.1.0"
edition = "2021"
publish = false

[dependencies]
serde = { version = "=1.0.229", features = ["derive"] }
serde_json = "=1.0.154"
tokio = { version = "=1.54.1", features = ["rt", "time", "net", "sync", "macros", "io-util"] }
tokio-tungstenite = { version = "=0.30.0", features = ["native-tls"] }
futures-util = "=0.3.34"
rusqlite = { version = "=0.41.1", features = ["bundled"] }
rubato = "=0.16.2"
ndarray = "=0.17.2"
ort = { version = "=2.0.0-rc.15", default-features = false, features = ["load-dynamic", "ndarray", "std"] }
parakeet-rs = "=0.4.4"
aprilasr = "=0.3.0"
wasapi = "=0.26.0"
windows = "=0.62.2"
cpal = "=0.18.2"
