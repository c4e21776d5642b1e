[package]
name = "trainwreck"
version = "0.1.0"
edition = "2021"
publish = false

[dependencies]
csv = "1"
jiff = "0.2"
zip = { version = "2", default-features = false, features = ["deflate"] }
clap = { version = "4", features = ["derive", "env"] }
color-eyre = "0.6"
tokio = { version = "1", features = ["rt-multi-thread", "macros", "net"] }
axum = "0.8"
tower-http = { version = "0.6", features = ["fs"] }
serde = { version = "1", features = ["derive"] }
reqwest = { version = "0.12", default-features = false, features = ["rustls-tls"] }
prost = "0.13"
thiserror = "2"
