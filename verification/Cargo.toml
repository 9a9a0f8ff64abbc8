[package]
name = "nirinit"
version = "0.1.0"
edition = "2021"
publish = false

[dependencies]
anstyle = "*"
clap = { version = "*", features = ["derive", "cargo"] }
color-eyre = "*"
dirs = "*"
log = { version = "*", features = ["std"] }
niri-ipc = "*"
serde = { version = "*", features = ["derive"] }
serde_json = "*"
signal-hook = "*"
thiserror = "*"
toml = "*"
