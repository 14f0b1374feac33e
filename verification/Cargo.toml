[package]
name = "zoomcap"
version = "0.1.0"
edition = "2021"
publish = false

[dependencies]
base64 = "*"
chromiumoxide = { version = "*", default-features = false, features = ["tokio-runtime"] }
chrono = "*"
deunicode = "*"
dirs-next = "*"
futures = "*"
futures-util = "*"
reqwest = { version = "*", default-features = false, features = ["stream"] }
rusqlite = { version = "*", features = ["bundled"] }
sanitize-filename = "*"
serde = { version = "*", features = ["derive"] }
serde_json = "*"
tokio = { version = "*", features = ["full"] }
tokio-tungstenite = "*"
toml = "*"
url = "*"

[dev-dependencies]
tempfile = "*"
