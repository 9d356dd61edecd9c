[package]
name = "socket_pump"
version = "0.1.0"
edition = "2021"
publish = false

[dependencies]
bincode = "1.3"
tungstenite = { version = "0.24", features = ["rustls-tls-webpki-roots"] }
rustls = "0.23"
thiserror = "1"
send_wrapper = "0.6"
web-sys = { version = "0.3", features = ["BinaryType", "Event", "MessageEvent", "WebSocket", "console"] }
