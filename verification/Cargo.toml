[package]
name = "chat_overlay"
version = "0.1.0"
edition = "2021"
publish = false

[dependencies]
bevy = { version = "0.14", default-features = false }
twitch-irc = { version = "5", default-features = false, features = ["transport-tcp", "transport-tcp-rustls-webpki-roots"] }
tokio = { version = "1", features = ["rt-multi-thread", "macros", "sync", "time"] }
reqwest = { version = "0.12", default-features = false, features = ["json", "rustls-tls"] }
image = { version = "0.25", default-features = false, features = ["png", "gif", "webp", "jpeg", "bmp"] }
rust-ini = "0.21"
log = "0.4"
env_logger = "0.11"
rand = "0.8"
serde = { version = "1", features = ["derive"] }
