[package]
name = "wayflow"
version = "0.1.0"
edition = "2021"
publish = false

[dependencies]
anyhow = "=1.0.104"
serde = { version = "=1.0.229", features = ["derive"] }
serde_json = "=1.0.154"
postcard = { version = "=1.1.3", features = ["alloc"] }
toml = "=0.8.23"
dirs = "=5.0.1"
tokio = { version = "=1.54.1", features = ["full"] }
tokio-rustls = { version = "=0.26.6", default-features = false, features = ["ring", "tls12", "logging"] }
rustls = { version = "=0.23.46", default-features = false, features = ["ring", "std", "tls12", "logging"] }
rustls-pemfile = "=2.2.0"
rcgen = "=0.13.2"
tracing = "=0.1.44"
tracing-subscriber = { version = "=0.3.23", features = ["env-filter", "json"] }
tracing-appender = "=0.2.5"
clap = { version = "=4.6.7", features = ["derive"] }
libc = "=0.2.191"
futures = "=0.3.34"
wayland-client = "=0.31.15"
wayland-protocols = { version = "=0.32.13", features = ["client", "unstable", "staging"] }
wayland-protocols-wlr = { version = "=0.3.12", features = ["client"] }
ashpd = { version = "=0.13.13", features = ["input_capture"] }
reis = { version = "=0.7.1", features = ["tokio"] }
arboard = "=3.7.0"
evdev = "=0.13.2"
open = "=5.4.5"
