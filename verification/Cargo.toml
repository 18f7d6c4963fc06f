[package]
name = "veila"
version = "0.1.0"
edition = "2021"
publish = false

[dependencies]
anyhow = "=1.0.104"
image = { version = "=0.25.10", default-features = false, features = ["png", "jpeg", "webp"] }
tiny-skia = "=0.11.4"
toml = "=0.8.23"
zeroize = "=1.9.1"
serde = { version = "=1.0.229", features = ["derive"] }
serde_json = "=1.0.154"
thiserror = "=2.0.21"
tracing = "=0.1.44"
tokio = { version = "=1.54.1", features = ["rt", "rt-multi-thread", "net", "io-util", "sync", "time", "macros", "signal"] }
nix = { version = "=0.30.1", features = ["socket", "user"] }
nonstick = "=0.1.2"
zbus = "=5.19.0"
smithay-client-toolkit = { version = "=0.19.2", default-features = false, features = ["calloop"] }
calloop = { version = "=0.13.0", features = ["signals"] }
wayland-protocols-wlr = { version = "=0.3.12", features = ["client"] }
