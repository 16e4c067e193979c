[package]
name = "lib2ra"
version = "0.1.0"
edition = "2021"
publish = false

[dependencies]
allo-isolate = "0.1"
bincode = "1.3"
chashmap = "2.2"
color-eyre = "0.6"
lazy_static = "1"
log = "0.4"
pretty_env_logger = "0.4"
rustls = { version = "0.20", features = ["dangerous_configuration"] }
rustls-pemfile = "1"
serde = { version = "1", features = ["derive"] }
socks5-proto = "0.3"
socks5-server = "0.8"
tokio = { version = "1", features = ["full"] }
tokio-rustls = "0.23"
toml = "0.7"
uuid = { version = "1", features = ["v4"] }
webpki-roots = "0.22"
