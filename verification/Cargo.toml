[package]
name = "ai_switch"
version = "0.1.0"
edition = "2021"
publish = false

[dependencies]
chrono = "0.4"
gio = "0.20"
glib = "0.20"
gtk4 = "0.9"
libc = "0.2"
nix = { version = "0.29", features = ["process", "signal", "fs"] }
reqwest = { version = "0.12", default-features = false, features = ["blocking"] }
serde = { version = "1", features = ["derive"] }
serde_json = "1"
single-instance = "0.3"
tiny_http = "0.12"
toml = "0.8"
tracing = "0.1"
tracing-subscriber = "0.3"
