[package]
name = "showdown"
version = "0.1.0"
edition = "2021"
publish = false

[dependencies]
futures-util = { version = "=0.3.34", default-features = false, features = ["sink", "std"] }
reqwest = { version = "=0.13.5", default-features = false, features = ["form"] }
serde = "=1.0.229"
serde_json = "=1.0.154"
thiserror = "=2.0.21"
time = "=0.3.55"
tokio = { version = "=1.54.1", features = ["net"] }
tokio-tungstenite = "=0.30.0"
url = "=2.5.8"
