[package]
name = "player_control"
version = "0.1.0"
edition = "2021"
publish = false

[dependencies]
regex = "=1.13.1"
interpolator = "=0.5.0"
indexmap = "=2.14.2"
circular-buffer = "=0.1.9"
chrono = { version = "0.4", default-features = false, features = ["clock"] }
rfd = { version = "0.12", default-features = false, features = ["xdg-portal"] }
russh = "=0.37.1"
russh-keys = "0.37"
async-trait = "0.1"
async-mutex = "1"
serde = { version = "1", features = ["derive"] }
toml = "0.7"
tokio = { version = "1", features = ["rt-multi-thread", "macros", "time"] }
standard_paths = "2"
open = "5"
lazy_static = "1"
