[package]
name = "bsv-messagebox-client"
version = "0.1.3"
edition = "2021"
publish = false

[dependencies]
async-trait = "0.1"
authsocket = { version = "0.1", features = ["client"] }
base64 = "=0.22.1"
bsv-sdk = { version = "0.2", features = ["network"] }
futures-util = "0.3"
hex = "=0.4.3"
rand = "=0.8.8"
rust_socketio = { version = "0.6", features = ["async"] }
serde = { version = "1", features = ["derive"] }
serde_json = "=1.0.154"
thiserror = "2"
tokio = { version = "1", features = ["macros", "rt-multi-thread", "sync", "time"] }
