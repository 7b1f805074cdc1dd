[package]
name = "bark"
version = "0.1.0"
edition = "2021"
publish = false

[dependencies]
nix = { version = "0.27", features = ["time", "user", "hostname", "poll"] }
rand = "0.8"
structopt = "0.3"
socket2 = { version = "0.5", features = ["all"] }
termcolor = "1"
serde = { version = "1", features = ["derive"] }
toml = "0.8"
xdg = "2"
log = "0.4"
env_logger = "0.10"
libc = "0.2"
cpal = "0.15"
tokio = { version = "1", features = ["rt", "macros", "net"] }
axum = "0.7"
